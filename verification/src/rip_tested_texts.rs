//! The command texts of the RIPscrip round trip that the editor is tested
//! with: each writes one well-formed command, so reading `!`, the text and `|`
//! records exactly that command (`rip_parser::lemma_line_with_one_command`).
use vstd::prelude::*;
use crate::meganum::{encode, pow36};
use crate::rip_command::{encode_args, rip_text, well_formed, widths_of, RipCommandView};
use crate::rip_text::{lemma_escape_plain, plain};

verus! {

/// Whether `text` writes a well-formed command (with the `|` in front).
pub open spec fn writes_command(text: Seq<char>) -> bool {
    exists|c: RipCommandView| well_formed(c) && #[trigger] rip_text(c) == text
}

proof fn lemma_pow36_values()
    ensures
        pow36(0) == 1,
        pow36(1) == 36,
        pow36(2) == 1296,
        pow36(3) == 46656,
        pow36(4) == 1679616,
        pow36(5) == 60466176,
        pow36(6) == 2176782336,
        pow36(7) == 78364164096,
        pow36(8) == 2821109907456,
{
    reveal_with_fuel(pow36, 9);
}

proof fn lemma_rip_text_window()
    ensures
        writes_command("|w00001B0M10"@),
{
    let c = RipCommandView { level: 0, letter: 119, args: seq![0u64, 0, 47, 22, 1, 0], text: Seq::<u8>::empty() };
    reveal_strlit("|w00001B0M10");
    lemma_pow36_values();
    assert(widths_of(c) =~= seq![2u8, 2, 2, 2, 1, 1]);
    assert(well_formed(c));
    reveal_with_fuel(encode, 9);
    reveal_with_fuel(encode_args, 7);
    assert(rip_text(c) =~= "|w00001B0M10"@);
}

proof fn lemma_rip_viewport()
    ensures
        writes_command("|v00002E1M"@),
{
    let c = RipCommandView { level: 0, letter: 118, args: seq![0u64, 0, 86, 58], text: Seq::<u8>::empty() };
    reveal_strlit("|v00002E1M");
    lemma_pow36_values();
    assert(widths_of(c) =~= seq![2u8, 2, 2, 2]);
    assert(well_formed(c));
    reveal_with_fuel(encode, 9);
    reveal_with_fuel(encode_args, 5);
    assert(rip_text(c) =~= "|v00002E1M"@);
}

proof fn lemma_reset_windows()
    ensures
        writes_command("|*"@),
{
    let c = RipCommandView { level: 0, letter: 42, args: Seq::<u64>::empty(), text: Seq::<u8>::empty() };
    reveal_strlit("|*");
    lemma_pow36_values();
    assert(widths_of(c) =~= Seq::<u8>::empty());
    assert(well_formed(c));
    reveal_with_fuel(encode, 9);
    reveal_with_fuel(encode_args, 1);
    assert(rip_text(c) =~= "|*"@);
}

proof fn lemma_erase_window()
    ensures
        writes_command("|e"@),
{
    let c = RipCommandView { level: 0, letter: 101, args: Seq::<u64>::empty(), text: Seq::<u8>::empty() };
    reveal_strlit("|e");
    lemma_pow36_values();
    assert(widths_of(c) =~= Seq::<u8>::empty());
    assert(well_formed(c));
    reveal_with_fuel(encode, 9);
    reveal_with_fuel(encode_args, 1);
    assert(rip_text(c) =~= "|e"@);
}

proof fn lemma_erase_view()
    ensures
        writes_command("|E"@),
{
    let c = RipCommandView { level: 0, letter: 69, args: Seq::<u64>::empty(), text: Seq::<u8>::empty() };
    reveal_strlit("|E");
    lemma_pow36_values();
    assert(widths_of(c) =~= Seq::<u8>::empty());
    assert(well_formed(c));
    reveal_with_fuel(encode, 9);
    reveal_with_fuel(encode_args, 1);
    assert(rip_text(c) =~= "|E"@);
}

proof fn lemma_gotoxy()
    ensures
        writes_command("|g0509"@),
{
    let c = RipCommandView { level: 0, letter: 103, args: seq![5u64, 9], text: Seq::<u8>::empty() };
    reveal_strlit("|g0509");
    lemma_pow36_values();
    assert(widths_of(c) =~= seq![2u8, 2]);
    assert(well_formed(c));
    reveal_with_fuel(encode, 9);
    reveal_with_fuel(encode_args, 3);
    assert(rip_text(c) =~= "|g0509"@);
}

proof fn lemma_home()
    ensures
        writes_command("|H"@),
{
    let c = RipCommandView { level: 0, letter: 72, args: Seq::<u64>::empty(), text: Seq::<u8>::empty() };
    reveal_strlit("|H");
    lemma_pow36_values();
    assert(widths_of(c) =~= Seq::<u8>::empty());
    assert(well_formed(c));
    reveal_with_fuel(encode, 9);
    reveal_with_fuel(encode_args, 1);
    assert(rip_text(c) =~= "|H"@);
}

proof fn lemma_erase_eol()
    ensures
        writes_command("|>"@),
{
    let c = RipCommandView { level: 0, letter: 62, args: Seq::<u64>::empty(), text: Seq::<u8>::empty() };
    reveal_strlit("|>");
    lemma_pow36_values();
    assert(widths_of(c) =~= Seq::<u8>::empty());
    assert(well_formed(c));
    reveal_with_fuel(encode, 9);
    reveal_with_fuel(encode_args, 1);
    assert(rip_text(c) =~= "|>"@);
}

proof fn lemma_color()
    ensures
        writes_command("|c0A"@),
{
    let c = RipCommandView { level: 0, letter: 99, args: seq![10u64], text: Seq::<u8>::empty() };
    reveal_strlit("|c0A");
    lemma_pow36_values();
    assert(widths_of(c) =~= seq![2u8]);
    assert(well_formed(c));
    reveal_with_fuel(encode, 9);
    reveal_with_fuel(encode_args, 2);
    assert(rip_text(c) =~= "|c0A"@);
}

proof fn lemma_set_palette()
    ensures
        writes_command("|Q000102030405060708090A0B0C0D0E0F"@),
{
    let c = RipCommandView { level: 0, letter: 81, args: seq![0u64, 1, 2, 3, 4, 5, 6, 7, 8, 9, 10, 11, 12, 13, 14, 15], text: Seq::<u8>::empty() };
    reveal_strlit("|Q000102030405060708090A0B0C0D0E0F");
    lemma_pow36_values();
    assert(widths_of(c) =~= seq![2u8, 2, 2, 2, 2, 2, 2, 2, 2, 2, 2, 2, 2, 2, 2, 2]);
    assert(well_formed(c));
    reveal_with_fuel(encode, 9);
    reveal_with_fuel(encode_args, 17);
    assert(rip_text(c) =~= "|Q000102030405060708090A0B0C0D0E0F"@);
}

proof fn lemma_one_palette()
    ensures
        writes_command("|a051B"@),
{
    let c = RipCommandView { level: 0, letter: 97, args: seq![5u64, 47], text: Seq::<u8>::empty() };
    reveal_strlit("|a051B");
    lemma_pow36_values();
    assert(widths_of(c) =~= seq![2u8, 2]);
    assert(well_formed(c));
    reveal_with_fuel(encode, 9);
    reveal_with_fuel(encode_args, 3);
    assert(rip_text(c) =~= "|a051B"@);
}

proof fn lemma_write_mode()
    ensures
        writes_command("|W00"@),
{
    let c = RipCommandView { level: 0, letter: 87, args: seq![0u64], text: Seq::<u8>::empty() };
    reveal_strlit("|W00");
    lemma_pow36_values();
    assert(widths_of(c) =~= seq![2u8]);
    assert(well_formed(c));
    reveal_with_fuel(encode, 9);
    reveal_with_fuel(encode_args, 2);
    assert(rip_text(c) =~= "|W00"@);
}

proof fn lemma_move()
    ensures
        writes_command("|m0509"@),
{
    let c = RipCommandView { level: 0, letter: 109, args: seq![5u64, 9], text: Seq::<u8>::empty() };
    reveal_strlit("|m0509");
    lemma_pow36_values();
    assert(widths_of(c) =~= seq![2u8, 2]);
    assert(well_formed(c));
    reveal_with_fuel(encode, 9);
    reveal_with_fuel(encode_args, 3);
    assert(rip_text(c) =~= "|m0509"@);
}

proof fn lemma_text()
    ensures
        writes_command("|Thello world"@),
{
    let c = RipCommandView { level: 0, letter: 84, args: Seq::<u64>::empty(), text: seq![104u8, 101, 108, 108, 111, 32, 119, 111, 114, 108, 100] };
    reveal_strlit("|Thello world");
    lemma_pow36_values();
    assert(widths_of(c) =~= Seq::<u8>::empty());
    assert(well_formed(c));
        assert(plain(c.text));
        lemma_escape_plain(c.text);
    reveal_with_fuel(encode, 9);
    reveal_with_fuel(encode_args, 1);
    assert(rip_text(c) =~= "|Thello world"@);
}

proof fn lemma_text_xy()
    ensures
        writes_command("|@0011hello world"@),
{
    let c = RipCommandView { level: 0, letter: 64, args: seq![0u64, 37], text: seq![104u8, 101, 108, 108, 111, 32, 119, 111, 114, 108, 100] };
    reveal_strlit("|@0011hello world");
    lemma_pow36_values();
    assert(widths_of(c) =~= seq![2u8, 2]);
    assert(well_formed(c));
        assert(plain(c.text));
        lemma_escape_plain(c.text);
    reveal_with_fuel(encode, 9);
    reveal_with_fuel(encode_args, 3);
    assert(rip_text(c) =~= "|@0011hello world"@);
}

proof fn lemma_font_style()
    ensures
        writes_command("|Y01000400"@),
{
    let c = RipCommandView { level: 0, letter: 89, args: seq![1u64, 0, 4, 0], text: Seq::<u8>::empty() };
    reveal_strlit("|Y01000400");
    lemma_pow36_values();
    assert(widths_of(c) =~= seq![2u8, 2, 2, 2]);
    assert(well_formed(c));
    reveal_with_fuel(encode, 9);
    reveal_with_fuel(encode_args, 5);
    assert(rip_text(c) =~= "|Y01000400"@);
}

proof fn lemma_pixel()
    ensures
        writes_command("|X1122"@),
{
    let c = RipCommandView { level: 0, letter: 88, args: seq![37u64, 74], text: Seq::<u8>::empty() };
    reveal_strlit("|X1122");
    lemma_pow36_values();
    assert(widths_of(c) =~= seq![2u8, 2]);
    assert(well_formed(c));
    reveal_with_fuel(encode, 9);
    reveal_with_fuel(encode_args, 3);
    assert(rip_text(c) =~= "|X1122"@);
}

proof fn lemma_line()
    ensures
        writes_command("|L00010A0E"@),
{
    let c = RipCommandView { level: 0, letter: 76, args: seq![0u64, 1, 10, 14], text: Seq::<u8>::empty() };
    reveal_strlit("|L00010A0E");
    lemma_pow36_values();
    assert(widths_of(c) =~= seq![2u8, 2, 2, 2]);
    assert(well_formed(c));
    reveal_with_fuel(encode, 9);
    reveal_with_fuel(encode_args, 5);
    assert(rip_text(c) =~= "|L00010A0E"@);
}

proof fn lemma_rectangle()
    ensures
        writes_command("|R00010A0E"@),
{
    let c = RipCommandView { level: 0, letter: 82, args: seq![0u64, 1, 10, 14], text: Seq::<u8>::empty() };
    reveal_strlit("|R00010A0E");
    lemma_pow36_values();
    assert(widths_of(c) =~= seq![2u8, 2, 2, 2]);
    assert(well_formed(c));
    reveal_with_fuel(encode, 9);
    reveal_with_fuel(encode_args, 5);
    assert(rip_text(c) =~= "|R00010A0E"@);
}

proof fn lemma_bar()
    ensures
        writes_command("|B00010A0E"@),
{
    let c = RipCommandView { level: 0, letter: 66, args: seq![0u64, 1, 10, 14], text: Seq::<u8>::empty() };
    reveal_strlit("|B00010A0E");
    lemma_pow36_values();
    assert(widths_of(c) =~= seq![2u8, 2, 2, 2]);
    assert(well_formed(c));
    reveal_with_fuel(encode, 9);
    reveal_with_fuel(encode_args, 5);
    assert(rip_text(c) =~= "|B00010A0E"@);
}

proof fn lemma_circle()
    ensures
        writes_command("|C1E180M"@),
{
    let c = RipCommandView { level: 0, letter: 67, args: seq![50u64, 44, 22], text: Seq::<u8>::empty() };
    reveal_strlit("|C1E180M");
    lemma_pow36_values();
    assert(widths_of(c) =~= seq![2u8, 2, 2]);
    assert(well_formed(c));
    reveal_with_fuel(encode, 9);
    reveal_with_fuel(encode_args, 4);
    assert(rip_text(c) =~= "|C1E180M"@);
}

proof fn lemma_oval()
    ensures
        writes_command("|O1E1A18003G15"@),
{
    let c = RipCommandView { level: 0, letter: 79, args: seq![50u64, 46, 44, 0, 124, 41], text: Seq::<u8>::empty() };
    reveal_strlit("|O1E1A18003G15");
    lemma_pow36_values();
    assert(widths_of(c) =~= seq![2u8, 2, 2, 2, 2, 2]);
    assert(well_formed(c));
    reveal_with_fuel(encode, 9);
    reveal_with_fuel(encode_args, 7);
    assert(rip_text(c) =~= "|O1E1A18003G15"@);
}

proof fn lemma_filled_oval()
    ensures
        writes_command("|o1G2B0M0G"@),
{
    let c = RipCommandView { level: 0, letter: 111, args: seq![52u64, 83, 22, 16], text: Seq::<u8>::empty() };
    reveal_strlit("|o1G2B0M0G");
    lemma_pow36_values();
    assert(widths_of(c) =~= seq![2u8, 2, 2, 2]);
    assert(well_formed(c));
    reveal_with_fuel(encode, 9);
    reveal_with_fuel(encode_args, 5);
    assert(rip_text(c) =~= "|o1G2B0M0G"@);
}

proof fn lemma_arc()
    ensures
        writes_command("|A1E18003G15"@),
{
    let c = RipCommandView { level: 0, letter: 65, args: seq![50u64, 44, 0, 124, 41], text: Seq::<u8>::empty() };
    reveal_strlit("|A1E18003G15");
    lemma_pow36_values();
    assert(widths_of(c) =~= seq![2u8, 2, 2, 2, 2]);
    assert(well_formed(c));
    reveal_with_fuel(encode, 9);
    reveal_with_fuel(encode_args, 6);
    assert(rip_text(c) =~= "|A1E18003G15"@);
}

proof fn lemma_oval_arc()
    ensures
        writes_command("|V1E18003G151Q"@),
{
    let c = RipCommandView { level: 0, letter: 86, args: seq![50u64, 44, 0, 124, 41, 62], text: Seq::<u8>::empty() };
    reveal_strlit("|V1E18003G151Q");
    lemma_pow36_values();
    assert(widths_of(c) =~= seq![2u8, 2, 2, 2, 2, 2]);
    assert(well_formed(c));
    reveal_with_fuel(encode, 9);
    reveal_with_fuel(encode_args, 7);
    assert(rip_text(c) =~= "|V1E18003G151Q"@);
}

proof fn lemma_pie_slice()
    ensures
        writes_command("|I1E18003G15"@),
{
    let c = RipCommandView { level: 0, letter: 73, args: seq![50u64, 44, 0, 124, 41], text: Seq::<u8>::empty() };
    reveal_strlit("|I1E18003G15");
    lemma_pow36_values();
    assert(widths_of(c) =~= seq![2u8, 2, 2, 2, 2]);
    assert(well_formed(c));
    reveal_with_fuel(encode, 9);
    reveal_with_fuel(encode_args, 6);
    assert(rip_text(c) =~= "|I1E18003G15"@);
}

proof fn lemma_oval_pie_slice()
    ensures
        writes_command("|i1E18003G151Q"@),
{
    let c = RipCommandView { level: 0, letter: 105, args: seq![50u64, 44, 0, 124, 41, 62], text: Seq::<u8>::empty() };
    reveal_strlit("|i1E18003G151Q");
    lemma_pow36_values();
    assert(widths_of(c) =~= seq![2u8, 2, 2, 2, 2, 2]);
    assert(well_formed(c));
    reveal_with_fuel(encode, 9);
    reveal_with_fuel(encode_args, 7);
    assert(rip_text(c) =~= "|i1E18003G151Q"@);
}

proof fn lemma_bezier()
    ensures
        writes_command("|Z0A0B0C0D0E0F0G0H1G"@),
{
    let c = RipCommandView { level: 0, letter: 90, args: seq![10u64, 11, 12, 13, 14, 15, 16, 17, 52], text: Seq::<u8>::empty() };
    reveal_strlit("|Z0A0B0C0D0E0F0G0H1G");
    lemma_pow36_values();
    assert(widths_of(c) =~= seq![2u8, 2, 2, 2, 2, 2, 2, 2, 2]);
    assert(well_formed(c));
    reveal_with_fuel(encode, 9);
    reveal_with_fuel(encode_args, 10);
    assert(rip_text(c) =~= "|Z0A0B0C0D0E0F0G0H1G"@);
}

proof fn lemma_polygon()
    ensures
        writes_command("|P03010105090905"@),
{
    let c = RipCommandView { level: 0, letter: 80, args: seq![3u64, 1, 1, 5, 9, 9, 5], text: Seq::<u8>::empty() };
    reveal_strlit("|P03010105090905");
    lemma_pow36_values();
    assert(widths_of(c) =~= seq![2u8, 2, 2, 2, 2, 2, 2]);
    assert(well_formed(c));
    reveal_with_fuel(encode, 9);
    reveal_with_fuel(encode_args, 8);
    assert(rip_text(c) =~= "|P03010105090905"@);
}

proof fn lemma_fill_polygon()
    ensures
        writes_command("|p03010105050909"@),
{
    let c = RipCommandView { level: 0, letter: 112, args: seq![3u64, 1, 1, 5, 5, 9, 9], text: Seq::<u8>::empty() };
    reveal_strlit("|p03010105050909");
    lemma_pow36_values();
    assert(widths_of(c) =~= seq![2u8, 2, 2, 2, 2, 2, 2]);
    assert(well_formed(c));
    reveal_with_fuel(encode, 9);
    reveal_with_fuel(encode_args, 8);
    assert(rip_text(c) =~= "|p03010105050909"@);
}

proof fn lemma_polyline()
    ensures
        writes_command("|l03010105050909"@),
{
    let c = RipCommandView { level: 0, letter: 108, args: seq![3u64, 1, 1, 5, 5, 9, 9], text: Seq::<u8>::empty() };
    reveal_strlit("|l03010105050909");
    lemma_pow36_values();
    assert(widths_of(c) =~= seq![2u8, 2, 2, 2, 2, 2, 2]);
    assert(well_formed(c));
    reveal_with_fuel(encode, 9);
    reveal_with_fuel(encode_args, 8);
    assert(rip_text(c) =~= "|l03010105050909"@);
}

proof fn lemma_fill()
    ensures
        writes_command("|F25090F"@),
{
    let c = RipCommandView { level: 0, letter: 70, args: seq![77u64, 9, 15], text: Seq::<u8>::empty() };
    reveal_strlit("|F25090F");
    lemma_pow36_values();
    assert(widths_of(c) =~= seq![2u8, 2, 2]);
    assert(well_formed(c));
    reveal_with_fuel(encode, 9);
    reveal_with_fuel(encode_args, 4);
    assert(rip_text(c) =~= "|F25090F"@);
}

proof fn lemma_line_style()
    ensures
        writes_command("|=01000001"@),
{
    let c = RipCommandView { level: 0, letter: 61, args: seq![1u64, 0, 1], text: Seq::<u8>::empty() };
    reveal_strlit("|=01000001");
    lemma_pow36_values();
    assert(widths_of(c) =~= seq![2u8, 4, 2]);
    assert(well_formed(c));
    reveal_with_fuel(encode, 9);
    reveal_with_fuel(encode_args, 4);
    assert(rip_text(c) =~= "|=01000001"@);
}

proof fn lemma_fill_style()
    ensures
        writes_command("|S050F"@),
{
    let c = RipCommandView { level: 0, letter: 83, args: seq![5u64, 15], text: Seq::<u8>::empty() };
    reveal_strlit("|S050F");
    lemma_pow36_values();
    assert(widths_of(c) =~= seq![2u8, 2]);
    assert(well_formed(c));
    reveal_with_fuel(encode, 9);
    reveal_with_fuel(encode_args, 3);
    assert(rip_text(c) =~= "|S050F"@);
}

proof fn lemma_fill_pattern()
    ensures
        writes_command("|s11223344556677880F"@),
{
    let c = RipCommandView { level: 0, letter: 115, args: seq![37u64, 74, 111, 148, 185, 222, 259, 296, 15], text: Seq::<u8>::empty() };
    reveal_strlit("|s11223344556677880F");
    lemma_pow36_values();
    assert(widths_of(c) =~= seq![2u8, 2, 2, 2, 2, 2, 2, 2, 2]);
    assert(well_formed(c));
    reveal_with_fuel(encode, 9);
    reveal_with_fuel(encode_args, 10);
    assert(rip_text(c) =~= "|s11223344556677880F"@);
}

proof fn lemma_mouse()
    ensures
        writes_command("|1M00001122331100000host command^M"@),
{
    let c = RipCommandView { level: 1, letter: 77, args: seq![0u64, 0, 37, 74, 111, 1, 1, 0], text: seq![104u8, 111, 115, 116, 32, 99, 111, 109, 109, 97, 110, 100, 94, 77] };
    reveal_strlit("|1M00001122331100000host command^M");
    lemma_pow36_values();
    assert(widths_of(c) =~= seq![2u8, 2, 2, 2, 2, 1, 1, 5]);
    assert(well_formed(c));
        assert(plain(c.text));
        lemma_escape_plain(c.text);
    reveal_with_fuel(encode, 9);
    reveal_with_fuel(encode_args, 9);
    assert(rip_text(c) =~= "|1M00001122331100000host command^M"@);
}

proof fn lemma_kill_mouse_fields()
    ensures
        writes_command("|1K"@),
{
    let c = RipCommandView { level: 1, letter: 75, args: Seq::<u64>::empty(), text: Seq::<u8>::empty() };
    reveal_strlit("|1K");
    lemma_pow36_values();
    assert(widths_of(c) =~= Seq::<u8>::empty());
    assert(well_formed(c));
    reveal_with_fuel(encode, 9);
    reveal_with_fuel(encode_args, 1);
    assert(rip_text(c) =~= "|1K"@);
}

proof fn lemma_begin_text()
    ensures
        writes_command("|1T0011001100"@),
{
    let c = RipCommandView { level: 1, letter: 84, args: seq![0u64, 37, 0, 37, 0], text: Seq::<u8>::empty() };
    reveal_strlit("|1T0011001100");
    lemma_pow36_values();
    assert(widths_of(c) =~= seq![2u8, 2, 2, 2, 2]);
    assert(well_formed(c));
    reveal_with_fuel(encode, 9);
    reveal_with_fuel(encode_args, 6);
    assert(rip_text(c) =~= "|1T0011001100"@);
}

proof fn lemma_region_text()
    ensures
        writes_command("|1t1This is a text line to be justified"@),
{
    let c = RipCommandView { level: 1, letter: 116, args: seq![1u64], text: seq![84u8, 104, 105, 115, 32, 105, 115, 32, 97, 32, 116, 101, 120, 116, 32, 108, 105, 110, 101, 32, 116, 111, 32, 98, 101, 32, 106, 117, 115, 116, 105, 102, 105, 101, 100] };
    reveal_strlit("|1t1This is a text line to be justified");
    lemma_pow36_values();
    assert(widths_of(c) =~= seq![1u8]);
    assert(well_formed(c));
        assert(plain(c.text));
        lemma_escape_plain(c.text);
    reveal_with_fuel(encode, 9);
    reveal_with_fuel(encode_args, 2);
    assert(rip_text(c) =~= "|1t1This is a text line to be justified"@);
}

proof fn lemma_get_image()
    ensures
        writes_command("|1C001122330"@),
{
    let c = RipCommandView { level: 1, letter: 67, args: seq![0u64, 37, 74, 111, 0], text: Seq::<u8>::empty() };
    reveal_strlit("|1C001122330");
    lemma_pow36_values();
    assert(widths_of(c) =~= seq![2u8, 2, 2, 2, 1]);
    assert(well_formed(c));
    reveal_with_fuel(encode, 9);
    reveal_with_fuel(encode_args, 6);
    assert(rip_text(c) =~= "|1C001122330"@);
}

proof fn lemma_put_image()
    ensures
        writes_command("|1P0011010"@),
{
    let c = RipCommandView { level: 1, letter: 80, args: seq![0u64, 37, 1, 0], text: Seq::<u8>::empty() };
    reveal_strlit("|1P0011010");
    lemma_pow36_values();
    assert(widths_of(c) =~= seq![2u8, 2, 2, 1]);
    assert(well_formed(c));
    reveal_with_fuel(encode, 9);
    reveal_with_fuel(encode_args, 5);
    assert(rip_text(c) =~= "|1P0011010"@);
}

proof fn lemma_write_icon()
    ensures
        writes_command("|1W0filename.icn"@),
{
    let c = RipCommandView { level: 1, letter: 87, args: seq![0u64], text: seq![102u8, 105, 108, 101, 110, 97, 109, 101, 46, 105, 99, 110] };
    reveal_strlit("|1W0filename.icn");
    lemma_pow36_values();
    assert(widths_of(c) =~= seq![1u8]);
    assert(well_formed(c));
        assert(plain(c.text));
        lemma_escape_plain(c.text);
    reveal_with_fuel(encode, 9);
    reveal_with_fuel(encode_args, 2);
    assert(rip_text(c) =~= "|1W0filename.icn"@);
}

proof fn lemma_button_style()
    ensures
        writes_command("|1B0A0A010274030F080F080700010E07000000"@),
{
    let c = RipCommandView { level: 1, letter: 66, args: seq![10u64, 10, 1, 2848, 3, 15, 8, 15, 8, 7, 0, 1, 14, 7, 0], text: Seq::<u8>::empty() };
    reveal_strlit("|1B0A0A010274030F080F080700010E07000000");
    lemma_pow36_values();
    assert(widths_of(c) =~= seq![2u8, 2, 2, 4, 2, 2, 2, 2, 2, 2, 2, 2, 2, 2, 6]);
    assert(well_formed(c));
    reveal_with_fuel(encode, 9);
    reveal_with_fuel(encode_args, 16);
    assert(rip_text(c) =~= "|1B0A0A010274030F080F080700010E07000000"@);
}

proof fn lemma_define()
    ensures
        writes_command("|1D00700text_var,60:?question?default data"@),
{
    let c = RipCommandView { level: 1, letter: 68, args: seq![7u64, 0], text: seq![116u8, 101, 120, 116, 95, 118, 97, 114, 44, 54, 48, 58, 63, 113, 117, 101, 115, 116, 105, 111, 110, 63, 100, 101, 102, 97, 117, 108, 116, 32, 100, 97, 116, 97] };
    reveal_strlit("|1D00700text_var,60:?question?default data");
    lemma_pow36_values();
    assert(widths_of(c) =~= seq![3u8, 2]);
    assert(well_formed(c));
        assert(plain(c.text));
        lemma_escape_plain(c.text);
    reveal_with_fuel(encode, 9);
    reveal_with_fuel(encode_args, 3);
    assert(rip_text(c) =~= "|1D00700text_var,60:?question?default data"@);
}

proof fn lemma_query()
    ensures
        writes_command("|1\x1B0000this is a query $COMMAND$^m"@),
{
    let c = RipCommandView { level: 1, letter: 27, args: seq![0u64, 0], text: seq![116u8, 104, 105, 115, 32, 105, 115, 32, 97, 32, 113, 117, 101, 114, 121, 32, 36, 67, 79, 77, 77, 65, 78, 68, 36, 94, 109] };
    reveal_strlit("|1\x1B0000this is a query $COMMAND$^m");
    lemma_pow36_values();
    assert(widths_of(c) =~= seq![1u8, 3]);
    assert(well_formed(c));
        assert(plain(c.text));
        lemma_escape_plain(c.text);
    reveal_with_fuel(encode, 9);
    reveal_with_fuel(encode_args, 3);
    assert(rip_text(c) =~= "|1\x1B0000this is a query $COMMAND$^m"@);
}

proof fn lemma_copy_region()
    ensures
        writes_command("|1G080G140M0005"@),
{
    let c = RipCommandView { level: 1, letter: 71, args: seq![8u64, 16, 40, 22, 0, 5], text: Seq::<u8>::empty() };
    reveal_strlit("|1G080G140M0005");
    lemma_pow36_values();
    assert(widths_of(c) =~= seq![2u8, 2, 2, 2, 2, 2]);
    assert(well_formed(c));
    reveal_with_fuel(encode, 9);
    reveal_with_fuel(encode_args, 7);
    assert(rip_text(c) =~= "|1G080G140M0005"@);
}

proof fn lemma_read_scene()
    ensures
        writes_command("|1R00000000testfile.rip"@),
{
    let c = RipCommandView { level: 1, letter: 82, args: seq![0u64], text: seq![116u8, 101, 115, 116, 102, 105, 108, 101, 46, 114, 105, 112] };
    reveal_strlit("|1R00000000testfile.rip");
    lemma_pow36_values();
    assert(widths_of(c) =~= seq![8u8]);
    assert(well_formed(c));
        assert(plain(c.text));
        lemma_escape_plain(c.text);
    reveal_with_fuel(encode, 9);
    reveal_with_fuel(encode_args, 2);
    assert(rip_text(c) =~= "|1R00000000testfile.rip"@);
}

proof fn lemma_enter_block_mode()
    ensures
        writes_command("|9\x1B00010000ICONFILE.ICN<>"@),
{
    let c = RipCommandView { level: 9, letter: 27, args: seq![0u64, 0, 1, 0], text: seq![73u8, 67, 79, 78, 70, 73, 76, 69, 46, 73, 67, 78, 60, 62] };
    reveal_strlit("|9\x1B00010000ICONFILE.ICN<>");
    lemma_pow36_values();
    assert(widths_of(c) =~= seq![1u8, 1, 2, 4]);
    assert(well_formed(c));
        assert(plain(c.text));
        lemma_escape_plain(c.text);
    reveal_with_fuel(encode, 9);
    reveal_with_fuel(encode_args, 5);
    assert(rip_text(c) =~= "|9\x1B00010000ICONFILE.ICN<>"@);
}

/// Each command text of the round-trip tests writes one well-formed command.
pub proof fn lemma_tested_texts_write_commands()
    ensures
        writes_command("|w00001B0M10"@),
        writes_command("|v00002E1M"@),
        writes_command("|*"@),
        writes_command("|e"@),
        writes_command("|E"@),
        writes_command("|g0509"@),
        writes_command("|H"@),
        writes_command("|>"@),
        writes_command("|c0A"@),
        writes_command("|Q000102030405060708090A0B0C0D0E0F"@),
        writes_command("|a051B"@),
        writes_command("|W00"@),
        writes_command("|m0509"@),
        writes_command("|Thello world"@),
        writes_command("|@0011hello world"@),
        writes_command("|Y01000400"@),
        writes_command("|X1122"@),
        writes_command("|L00010A0E"@),
        writes_command("|R00010A0E"@),
        writes_command("|B00010A0E"@),
        writes_command("|C1E180M"@),
        writes_command("|O1E1A18003G15"@),
        writes_command("|o1G2B0M0G"@),
        writes_command("|A1E18003G15"@),
        writes_command("|V1E18003G151Q"@),
        writes_command("|I1E18003G15"@),
        writes_command("|i1E18003G151Q"@),
        writes_command("|Z0A0B0C0D0E0F0G0H1G"@),
        writes_command("|P03010105090905"@),
        writes_command("|p03010105050909"@),
        writes_command("|l03010105050909"@),
        writes_command("|F25090F"@),
        writes_command("|=01000001"@),
        writes_command("|S050F"@),
        writes_command("|s11223344556677880F"@),
        writes_command("|1M00001122331100000host command^M"@),
        writes_command("|1K"@),
        writes_command("|1T0011001100"@),
        writes_command("|1t1This is a text line to be justified"@),
        writes_command("|1C001122330"@),
        writes_command("|1P0011010"@),
        writes_command("|1W0filename.icn"@),
        writes_command("|1B0A0A010274030F080F080700010E07000000"@),
        writes_command("|1D00700text_var,60:?question?default data"@),
        writes_command("|1\x1B0000this is a query $COMMAND$^m"@),
        writes_command("|1G080G140M0005"@),
        writes_command("|1R00000000testfile.rip"@),
        writes_command("|9\x1B00010000ICONFILE.ICN<>"@),
{
    lemma_rip_text_window();
    lemma_rip_viewport();
    lemma_reset_windows();
    lemma_erase_window();
    lemma_erase_view();
    lemma_gotoxy();
    lemma_home();
    lemma_erase_eol();
    lemma_color();
    lemma_set_palette();
    lemma_one_palette();
    lemma_write_mode();
    lemma_move();
    lemma_text();
    lemma_text_xy();
    lemma_font_style();
    lemma_pixel();
    lemma_line();
    lemma_rectangle();
    lemma_bar();
    lemma_circle();
    lemma_oval();
    lemma_filled_oval();
    lemma_arc();
    lemma_oval_arc();
    lemma_pie_slice();
    lemma_oval_pie_slice();
    lemma_bezier();
    lemma_polygon();
    lemma_fill_polygon();
    lemma_polyline();
    lemma_fill();
    lemma_line_style();
    lemma_fill_style();
    lemma_fill_pattern();
    lemma_mouse();
    lemma_kill_mouse_fields();
    lemma_begin_text();
    lemma_region_text();
    lemma_get_image();
    lemma_put_image();
    lemma_write_icon();
    lemma_button_style();
    lemma_define();
    lemma_query();
    lemma_copy_region();
    lemma_read_scene();
    lemma_enter_block_mode();
}

} // verus!
