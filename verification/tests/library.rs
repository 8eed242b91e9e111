use icy_draw::char_sets::{CharSetMapping, CharacterSets};
use icy_draw::cli::Cli;
use icy_draw::config::config_dir;
use icy_draw::error::IcyDrawError;
use icy_draw::meganum::{decode_digits, push_encoded};
use icy_draw::recent_files::{MostRecentlyUsedFiles, MAX_RECENT_FILES};
use icy_draw::rip_command::{parse_command, RipCommand};
use icy_draw::rip_parser::{create_buffer, Parser, ParserState};
use icy_draw::settings::{Settings, ThemePreference};

fn names(files: &Vec<String>) -> Vec<&str> {
    files.iter().map(|s| s.as_str()).collect()
}

// ----- MegaNums -----

#[test]
fn meganum_decodes_base_36() {
    assert_eq!(decode_digits(b"1G", 0, 2), Some(52));
    assert_eq!(decode_digits(b"ZZ", 0, 2), Some(1295));
    assert_eq!(decode_digits(b"x0A", 1, 2), Some(10));
    assert_eq!(decode_digits(b"1g", 0, 2), None);
    assert_eq!(decode_digits(b"00000000", 0, 8), Some(0));
}

#[test]
fn meganum_encodes_with_width() {
    let mut out = Vec::new();
    push_encoded(&mut out, 52, 2);
    push_encoded(&mut out, 7, 3);
    assert_eq!(out, b"1G007".to_vec());
}

// ----- RIPscrip commands -----

#[test]
fn parse_reads_parameters_and_text() {
    let c = parse_command(b"@0011hello world").unwrap();
    assert_eq!(c.level(), 0);
    assert_eq!(c.letter(), b'@');
    assert_eq!(c.args(), &vec![0, 37]);
    assert_eq!(c.text(), &b"hello world".to_vec());
}

#[test]
fn parse_reads_levels() {
    let c = parse_command(b"1K").unwrap();
    assert_eq!((c.level(), c.letter()), (1, b'K'));
    let c = parse_command(b"9\x1B00010000ICONFILE.ICN<>").unwrap();
    assert_eq!((c.level(), c.letter()), (9, 0x1B));
    assert_eq!(c.args(), &vec![0, 0, 1, 0]);
}

#[test]
fn parse_reads_polygon_points() {
    let c = parse_command(b"P0201020304").unwrap();
    assert_eq!(c.args(), &vec![2, 1, 2, 3, 4]);
    assert!(parse_command(b"P02010203").is_none());
    assert!(parse_command(b"P020102030405").is_none());
}

#[test]
fn parse_refuses_malformed_commands() {
    // unknown code
    assert!(parse_command(b"u0000").is_none());
    assert!(parse_command(b"1").is_none());
    assert!(parse_command(b"").is_none());
    // too few, too many, or lower-case digits
    assert!(parse_command(b"g05").is_none());
    assert!(parse_command(b"g050912").is_none());
    assert!(parse_command(b"g05z9").is_none());
    // text where the command takes none
    assert!(parse_command(b"Hx").is_none());
    // an unescaped bar or a line end inside a text
    assert!(parse_command(b"Ta|b").is_none());
    assert!(parse_command(b"Ta\nb").is_none());
    // a backslash that escapes nothing it may
    assert!(parse_command(b"Ta\\b").is_none());
}

#[test]
fn text_escapes_bar_and_backslash() {
    let c = parse_command(b"Ta\\|b\\\\c").unwrap();
    assert_eq!(c.text(), &b"a|b\\c".to_vec());
    assert_eq!(c.to_rip_bytes(), b"Ta\\|b\\\\c".to_vec());
}

#[test]
fn new_checks_the_command() {
    assert!(RipCommand::new(0, b'g', vec![5, 9], vec![]).is_some());
    assert!(RipCommand::new(0, b'g', vec![5], vec![]).is_none());
    assert!(RipCommand::new(0, b'g', vec![5, 1296], vec![]).is_none());
    assert!(RipCommand::new(0, b'g', vec![5, 9], b"x".to_vec()).is_none());
    assert!(RipCommand::new(0, b'T', vec![], b"a\rb".to_vec()).is_none());
    assert!(RipCommand::new(0, b'u', vec![], vec![]).is_none());
    assert!(RipCommand::new(0, b'P', vec![1, 2, 3], vec![]).is_some());
    assert!(RipCommand::new(0, b'P', vec![2, 2, 3], vec![]).is_none());
    assert!(RipCommand::new(2, b'T', vec![], vec![]).is_none());
}

#[test]
fn written_command_reads_back() {
    let c = RipCommand::new(1, b'M', vec![1, 2, 3, 4, 5, 1, 0, 7], b"cmd|with\\bars".to_vec()).unwrap();
    let bytes = c.to_rip_bytes();
    assert_eq!(bytes, b"1M01020304051000007cmd\\|with\\\\bars".to_vec());
    let back = parse_command(&bytes).unwrap();
    assert_eq!(back.level(), 1);
    assert_eq!(back.letter(), b'M');
    assert_eq!(back.args(), c.args());
    assert_eq!(back.text(), c.text());
}

#[test]
fn to_rip_string_maps_bytes_to_chars() {
    let c = RipCommand::new(0, b'T', vec![], vec![0xB0, b'a']).unwrap();
    assert_eq!(c.to_rip_string(), "|T\u{B0}a");
}

// ----- The stream reader -----

#[test]
fn parser_records_several_commands() {
    let mut parser = Parser::new();
    parser.record_rip_commands = true;
    create_buffer(&mut parser, b"!|c0A|g0509|Thello\\|there|*\r\n");
    assert!(parser.command.is_none());
    assert_eq!(parser.state(), ParserState::Text { at_line_start: true });
    let texts: Vec<String> = parser.rip_commands.iter().map(|c| c.to_rip_string()).collect();
    assert_eq!(texts, vec!["|c0A", "|g0509", "|Thello\\|there", "|*"]);
    assert_eq!(parser.rip_commands[2].text(), &b"hello|there".to_vec());
}

#[test]
fn parser_records_nothing_when_off() {
    let mut parser = Parser::new();
    create_buffer(&mut parser, b"!|c0A|");
    assert!(parser.rip_commands.is_empty());
    assert!(parser.command.is_none());
}

#[test]
fn parser_needs_bang_at_line_start() {
    let mut parser = Parser::new();
    parser.record_rip_commands = true;
    create_buffer(&mut parser, b"x!|c0A|\n");
    assert!(parser.rip_commands.is_empty());
    create_buffer(&mut parser, b"!|c0B|");
    assert_eq!(parser.rip_commands.len(), 1);
    assert_eq!(parser.rip_commands[0].args(), &vec![11]);
}

#[test]
fn parser_skips_unknown_commands() {
    let mut parser = Parser::new();
    parser.record_rip_commands = true;
    create_buffer(&mut parser, b"!|u12|c01|g0|");
    assert_eq!(parser.rip_commands.len(), 1);
    assert_eq!(parser.rip_commands[0].to_rip_string(), "|c01");
}

#[test]
fn parser_keeps_command_in_progress() {
    let mut parser = Parser::new();
    create_buffer(&mut parser, b"!|g05");
    assert_eq!(parser.command, Some(b"g05".to_vec()));
    assert_eq!(parser.state(), ParserState::Command { escaped: false });
}

// ----- Settings -----

#[test]
fn settings_default_values() {
    let s = Settings::default();
    assert_eq!(s.get_font_outline_style(), 0);
    assert_eq!(s.get_character_set(), 0);
    assert_eq!(s.is_dark_mode, None);
    assert!(!s.show_layer_borders);
    assert!(!s.show_line_numbers);
    assert_eq!(s.character_sets.character_sets.len(), 1);
}

#[test]
fn settings_startup_values() {
    let s = Settings::startup();
    assert_eq!(s.get_font_outline_style(), 0);
    assert_eq!(s.get_character_set(), 5);
    assert!(s.show_layer_borders);
    assert!(!s.show_line_numbers);
    assert_eq!(s.get_theme(), ThemePreference::System);
}

#[test]
fn settings_set_then_get() {
    let mut s = Settings::default();
    s.set_font_outline_style(3);
    s.set_character_set(7);
    assert_eq!(s.get_font_outline_style(), 3);
    assert_eq!(s.get_character_set(), 7);
}

#[test]
fn theme_follows_dark_mode() {
    let mut s = Settings::default();
    s.is_dark_mode = Some(true);
    assert_eq!(s.get_theme(), ThemePreference::Dark);
    s.is_dark_mode = Some(false);
    assert_eq!(s.get_theme(), ThemePreference::Light);
    s.is_dark_mode = None;
    assert_eq!(s.get_theme(), ThemePreference::System);
}

#[test]
fn default_char_set_rows() {
    let m = CharSetMapping::default();
    assert_eq!(m.font_checksum, 0);
    assert_eq!(m.table.len(), 15);
    assert!(m.table.iter().all(|r| r.len() == 10));
    assert_eq!(m.table[0][0], 218u8 as char);
    assert_eq!(m.table[5][0], 176u8 as char);
    assert_eq!(m.table[14][9], 154u8 as char);
}

#[test]
fn character_set_char_of_default_set() {
    let mut s = Settings::startup();
    assert_eq!(s.get_character_set_char(1234, 0), 176u8 as char);
    assert_eq!(s.get_character_set_char(0, 9), 250u8 as char);
    assert_eq!(s.get_character_set_char(0, 10), ' ');
    s.set_character_set(15);
    assert_eq!(s.get_character_set_char(0, 0), ' ');
}

#[test]
fn character_set_char_picks_font() {
    let mut s = Settings::default();
    let custom = CharSetMapping::from_code_rows(42, &vec![b"abc".to_vec()]);
    s.use_loaded_character_sets(Some(CharacterSets { character_sets: vec![CharSetMapping::default(), custom] }));
    assert_eq!(s.get_character_set_char(42, 1), 'b');
    assert_eq!(s.get_character_set_char(7, 1), 191u8 as char);
    s.use_loaded_character_sets(None);
    assert_eq!(s.character_sets.character_sets.len(), 1);
    assert_eq!(s.get_character_set_char(42, 1), 191u8 as char);
}

#[test]
fn error_messages() {
    assert_eq!(IcyDrawError::Error("bad".to_string()).to_message(), "Error: bad");
    assert_eq!(
        IcyDrawError::ErrorCreatingDirectory("fonts".to_string()).to_message(),
        "Error creating directory: fonts"
    );
}

#[test]
fn config_paths_name_their_files() {
    if let Ok(p) = Settings::get_settings_file(config_dir()) {
        assert!(p.ends_with("settings.json"));
    }
    if let Err(IcyDrawError::ErrorCreatingDirectory(what)) = MostRecentlyUsedFiles::get_mru_file(config_dir()) {
        assert_eq!(what, "mru file");
    }
    match Settings::plugin_directory_path(None) {
        Err(IcyDrawError::ErrorCreatingDirectory(what)) => assert_eq!(what, "plugin directory"),
        _ => panic!("expected an error"),
    }
    assert_eq!(Settings::plugin_directory_path(Some("/c".to_string())).ok().unwrap(), "/c/data/plugins");
    assert_eq!(icy_draw::config::app_ids(), ("com", "GitHub", "icy_draw"));
    match icy_draw::config::path_in_config_dir(None, "x.json", "thing") {
        Err(IcyDrawError::ErrorCreatingDirectory(what)) => assert_eq!(what, "thing"),
        _ => panic!("expected an error"),
    }
    let p = icy_draw::config::path_in_config_dir(Some("/tmp/conf".to_string()), "x.json", "thing").ok().unwrap();
    assert_eq!(p, "/tmp/conf/x.json");
}

#[test]
fn cli_holds_path() {
    let c = Cli { path: Some("a.ans".to_string()) };
    assert_eq!(c.path.as_deref(), Some("a.ans"));
}

// ----- Recently used files -----

#[test]
fn recent_file_moves_to_end() {
    let mut m = MostRecentlyUsedFiles::new();
    m.add_recent_file("/a");
    m.add_recent_file("/b");
    m.add_recent_file("/c");
    m.add_recent_file("/a");
    assert_eq!(names(m.files()), vec!["/b", "/c", "/a"]);
}

#[test]
fn recent_files_compare_as_paths() {
    let mut m = MostRecentlyUsedFiles::new();
    m.add_recent_file("/x/y");
    m.add_recent_file("/z");
    m.add_recent_file("/x//y/");
    assert_eq!(names(m.files()), vec!["/z", "/x//y/"]);
}

#[test]
fn recent_files_keep_at_most_ten() {
    let mut m = MostRecentlyUsedFiles::new();
    for i in 0..13 {
        m.add_recent_file(&format!("/f{i}"));
    }
    assert_eq!(m.files().len(), MAX_RECENT_FILES);
    assert_eq!(m.files()[0], "/f3");
    assert_eq!(m.files()[9], "/f12");
}

#[test]
fn recent_file_again_changes_nothing() {
    let mut m = MostRecentlyUsedFiles::new();
    m.add_recent_file("/a");
    m.add_recent_file("/b");
    m.add_recent_file("/b");
    assert_eq!(names(m.files()), vec!["/a", "/b"]);
}

#[test]
fn recent_files_drop_missing() {
    let mut m = MostRecentlyUsedFiles::from_files(vec!["/a".to_string(), "/b".to_string(), "/c".to_string()]);
    let left = m.get_recent_files(&vec![true, false, true]);
    assert_eq!(names(left), vec!["/a", "/c"]);
    assert_eq!(names(m.files()), vec!["/a", "/c"]);
}

#[test]
fn recent_files_clear() {
    let mut m = MostRecentlyUsedFiles::default();
    m.add_recent_file("/a");
    m.clear_recent_files();
    assert!(m.files().is_empty());
}

#[test]
fn recent_file_marked_removes_first_marked() {
    let mut m = MostRecentlyUsedFiles::from_files(vec!["/a".to_string(), "/b".to_string(), "/c".to_string()]);
    m.add_recent_file_marked("/B", &vec![false, true, true]);
    assert_eq!(names(m.files()), vec!["/a", "/c", "/B"]);
    m.add_recent_file_marked("/d", &vec![false, false, false]);
    assert_eq!(names(m.files()), vec!["/a", "/c", "/B", "/d"]);
}

#[test]
fn recent_file_marked_keeps_newest() {
    let files: Vec<String> = (0..10).map(|i| format!("/f{i}")).collect();
    let mut m = MostRecentlyUsedFiles::from_files(files);
    m.add_recent_file_marked("/new", &vec![false; 10]);
    assert_eq!(m.files().len(), 10);
    assert_eq!(m.files()[0], "/f1");
    assert_eq!(m.files()[9], "/new");
}

#[test]
fn rip_commands_written_alike_are_equal() {
    let a = parse_command(b"L00010A0E").unwrap();
    let b = RipCommand::new(0, b'L', vec![0, 1, 10, 14], vec![]).unwrap();
    assert_eq!(a.to_rip_bytes(), b.to_rip_bytes());
    assert_eq!(a.args(), b.args());
}

#[test]
fn key_bindings_file_names_its_file() {
    match icy_draw::config::key_bindings_file(config_dir()) {
        Ok(p) => assert!(p.ends_with("key_bindings.json")),
        Err(IcyDrawError::ErrorCreatingDirectory(what)) => assert_eq!(what, "key_bindings"),
        Err(_) => panic!("unexpected error"),
    }
}

#[test]
fn recent_file_simple_paths_compare_as_text() {
    let mut m = MostRecentlyUsedFiles::new();
    m.add_recent_file("/a/b");
    m.add_recent_file("/a/c");
    m.add_recent_file("/a/b");
    assert_eq!(names(m.files()), vec!["/a/c", "/a/b"]);
}

#[test]
fn recent_file_same_components_replaced() {
    let mut m = MostRecentlyUsedFiles::default();
    m.add_recent_file("dir/a.ans");
    m.add_recent_file("dir//a.ans/");
    assert_eq!(names(m.files()), vec!["dir//a.ans/"]);
}
