//! Character sets: for a font, rows of characters that the function keys
//! type.
use vstd::prelude::*;
use crate::config::{joined, path_in_config_dir};
use crate::error::IcyDrawError;

verus! {

/// The rows of character codes of the default character set.
pub open spec fn default_char_set_table() -> Seq<Seq<u8>> {
    seq![
        seq![218u8, 191, 192, 217, 196, 179, 195, 180, 193, 194],
        seq![201u8, 187, 200, 188, 205, 186, 204, 185, 202, 203],
        seq![213u8, 184, 212, 190, 205, 179, 198, 181, 207, 209],
        seq![214u8, 183, 211, 189, 196, 186, 199, 182, 208, 210],
        seq![197u8, 206, 216, 215, 232, 233, 155, 156, 153, 239],
        seq![176u8, 177, 178, 219, 223, 220, 221, 222, 254, 250],
        seq![1u8, 2, 3, 4, 5, 6, 240, 127, 14, 15],
        seq![24u8, 25, 30, 31, 16, 17, 18, 29, 20, 21],
        seq![174u8, 175, 242, 243, 169, 170, 253, 246, 171, 172],
        seq![227u8, 241, 244, 245, 234, 157, 228, 248, 251, 252],
        seq![224u8, 225, 226, 229, 230, 231, 235, 236, 237, 238],
        seq![128u8, 135, 165, 164, 152, 159, 247, 249, 173, 168],
        seq![131u8, 132, 133, 160, 166, 134, 142, 143, 145, 146],
        seq![136u8, 137, 138, 130, 144, 140, 139, 141, 161, 158],
        seq![147u8, 148, 149, 162, 167, 150, 129, 151, 163, 154],
    ]
}

/// The characters whose codes are the bytes of `row`.
pub open spec fn chars_of(row: Seq<u8>) -> Seq<char> {
    row.map_values(|b: u8| b as char)
}

/// The rows of characters of the default character set.
pub open spec fn default_char_rows() -> Seq<Seq<char>> {
    default_char_set_table().map_values(|row: Seq<u8>| chars_of(row))
}

/// The character set of one font: the font's checksum and rows of
/// characters.
#[derive(Debug, Clone)]
pub struct CharSetMapping {
    pub font_checksum: u32,
    pub table: Vec<Vec<char>>,
}

/// The rows of a character set.
pub open spec fn rows_of(m: CharSetMapping) -> Seq<Seq<char>> {
    m.table@.map_values(|r: Vec<char>| r@)
}

/// The character sets of all fonts that have one.
#[derive(Debug, Clone)]
pub struct CharacterSets {
    pub character_sets: Vec<CharSetMapping>,
}

/// The characters whose codes are the bytes of `row`.
fn chars_from_bytes(row: &Vec<u8>) -> (r: Vec<char>)
    ensures
        r@ == chars_of(row@),
{
    let mut out: Vec<char> = Vec::new();
    let n = row.len();
    let mut i: usize = 0;
    while i < n
        invariant
            n == row@.len(),
            i <= n,
            out@ =~= chars_of(row@.subrange(0, i as int)),
        decreases n - i,
    {
        out.push(row[i] as char);
        i = i + 1;
    }
    proof {
        assert(row@.subrange(0, n as int) =~= row@);
    }
    out
}

/// The rows of character codes of the default character set.
fn default_table_bytes() -> (r: Vec<Vec<u8>>)
    ensures
        r@.map_values(|v: Vec<u8>| v@) == default_char_set_table(),
{
    let r: Vec<Vec<u8>> = vec![
        vec![218u8, 191, 192, 217, 196, 179, 195, 180, 193, 194],
        vec![201u8, 187, 200, 188, 205, 186, 204, 185, 202, 203],
        vec![213u8, 184, 212, 190, 205, 179, 198, 181, 207, 209],
        vec![214u8, 183, 211, 189, 196, 186, 199, 182, 208, 210],
        vec![197u8, 206, 216, 215, 232, 233, 155, 156, 153, 239],
        vec![176u8, 177, 178, 219, 223, 220, 221, 222, 254, 250],
        vec![1u8, 2, 3, 4, 5, 6, 240, 127, 14, 15],
        vec![24u8, 25, 30, 31, 16, 17, 18, 29, 20, 21],
        vec![174u8, 175, 242, 243, 169, 170, 253, 246, 171, 172],
        vec![227u8, 241, 244, 245, 234, 157, 228, 248, 251, 252],
        vec![224u8, 225, 226, 229, 230, 231, 235, 236, 237, 238],
        vec![128u8, 135, 165, 164, 152, 159, 247, 249, 173, 168],
        vec![131u8, 132, 133, 160, 166, 134, 142, 143, 145, 146],
        vec![136u8, 137, 138, 130, 144, 140, 139, 141, 161, 158],
        vec![147u8, 148, 149, 162, 167, 150, 129, 151, 163, 154],
    ];
    proof {
        assert(r@.map_values(|v: Vec<u8>| v@) =~= default_char_set_table());
    }
    r
}

impl CharSetMapping {
    /// The character set of the font with checksum `font_checksum` whose
    /// rows hold the characters with the codes in `rows`.
    pub fn from_code_rows(font_checksum: u32, rows: &Vec<Vec<u8>>) -> (r: CharSetMapping)
        ensures
            r.font_checksum == font_checksum,
            rows_of(r) == rows@.map_values(|v: Vec<u8>| chars_of(v@)),
    {
        let mut table: Vec<Vec<char>> = Vec::new();
        let n = rows.len();
        let mut i: usize = 0;
        while i < n
            invariant
                n == rows@.len(),
                i <= n,
                table@.len() == i,
                table@.map_values(|r: Vec<char>| r@) =~= rows@.subrange(0, i as int).map_values(
                    |v: Vec<u8>| chars_of(v@),
                ),
            decreases n - i,
        {
            let row = chars_from_bytes(&rows[i]);
            let ghost before = table@;
            table.push(row);
            proof {
                let lhs = table@.map_values(|r: Vec<char>| r@);
                let rhs = rows@.subrange(0, i + 1).map_values(|v: Vec<u8>| chars_of(v@));
                assert forall|j: int| 0 <= j < i + 1 implies lhs[j] == rhs[j] by {
                    if j < i {
                        assert(table@[j] == before[j]);
                        assert(before.map_values(|r: Vec<char>| r@)[j] == before[j]@);
                        assert(rows@.subrange(0, i + 1)[j] == rows@.subrange(0, i as int)[j]);
                        assert(rows@.subrange(0, i as int).map_values(|v: Vec<u8>| chars_of(v@))[j]
                            == chars_of(rows@[j]@));
                    }
                }
                assert(lhs =~= rhs);
            }
            i = i + 1;
        }
        proof {
            assert(rows@.subrange(0, n as int) =~= rows@);
        }
        CharSetMapping { font_checksum, table }
    }
}

impl Default for CharSetMapping {
    /// The default character set: checksum 0 and the default rows.
    fn default() -> (r: CharSetMapping)
        ensures
            r.font_checksum == 0,
            rows_of(r) == default_char_rows(),
    {
        let bytes = default_table_bytes();
        let r = CharSetMapping::from_code_rows(0, &bytes);
        proof {
            assert(rows_of(r) =~= default_char_rows());
        }
        r
    }
}

impl Default for CharacterSets {
    /// One character set: the default one.
    fn default() -> (r: CharacterSets)
        ensures
            r.character_sets@.len() == 1,
            r.character_sets@[0].font_checksum == 0,
            rows_of(r.character_sets@[0]) == default_char_rows(),
    {
        let mut v: Vec<CharSetMapping> = Vec::new();
        v.push(CharSetMapping::default());
        CharacterSets { character_sets: v }
    }
}

impl CharacterSets {
    /// The file that holds the character sets, in the configuration
    /// directory `dir`; the error that names "character_sets" where there is none.
    pub fn get_character_sets_file(dir: Option<String>) -> (r: Result<String, IcyDrawError>)
        ensures
            dir is None <==> r is Err,
            r matches Err(e) ==> (e matches IcyDrawError::ErrorCreatingDirectory(m) && m@ == "character_sets"@),
            r matches Ok(p) ==> joined(dir->Some_0@, "character_sets.json"@, p@),
    {
        proof {
            reveal_strlit("character_sets.json");
        }
        path_in_config_dir(dir, "character_sets.json", "character_sets")
    }
}

} // verus!
