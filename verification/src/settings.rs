//! The editor's settings: the outline style of fonts, the character set that
//! the function keys type, the theme, what the editor shows, and the
//! character sets of the fonts.
use vstd::prelude::*;
use crate::char_sets::{default_char_rows, rows_of, CharSetMapping, CharacterSets};
use crate::config::{joined, path_in_config_dir};
use crate::error::IcyDrawError;

verus! {

/// Which theme the editor asks for.
#[derive(Clone, Copy, PartialEq, Eq, Structural, Debug)]
pub enum ThemePreference {
    Dark,
    Light,
    /// The theme of the system.
    System,
}

/// The theme that a dark-mode setting asks for: dark or light where it is
/// set, the system's where it is not.
pub open spec fn theme_for(is_dark_mode: Option<bool>) -> ThemePreference {
    match is_dark_mode {
        Some(true) => ThemePreference::Dark,
        Some(false) => ThemePreference::Light,
        None => ThemePreference::System,
    }
}

/// The settings of the editor.
#[derive(Debug, Clone)]
pub struct Settings {
    pub font_outline_style: usize,
    /// The row of the character set that the function keys type.
    pub character_set: usize,
    pub is_dark_mode: Option<bool>,
    pub show_layer_borders: bool,
    pub show_line_numbers: bool,
    pub character_sets: CharacterSets,
}

/// The position of the first character set whose font has the checksum
/// `checksum`; 0 where no font has it.
pub open spec fn index_of_font(sets: Seq<CharSetMapping>, checksum: u32) -> int {
    if exists|i: int| 0 <= i < sets.len() && #[trigger] sets[i].font_checksum == checksum {
        choose|i: int|
            0 <= i < sets.len() && #[trigger] sets[i].font_checksum == checksum && forall|j: int|
                0 <= j < i ==> #[trigger] sets[j].font_checksum != checksum
    } else {
        0
    }
}

/// The character at position `ch` of row `character_set` of the character
/// set of the font with checksum `checksum` (of the first set, where no font
/// has that checksum); a space where the set has no such row or the row no
/// such position.
pub open spec fn character_set_char(sets: Seq<CharSetMapping>, character_set: int, checksum: u32, ch: int) -> char {
    let rows = rows_of(sets[index_of_font(sets, checksum)]);
    if character_set >= rows.len() || ch >= rows[character_set].len() {
        ' '
    } else {
        rows[character_set][ch]
    }
}

impl Default for Settings {
    /// Everything off or zero, no theme chosen, and the default character
    /// sets.
    fn default() -> (r: Settings)
        ensures
            r.font_outline_style == 0,
            r.character_set == 0,
            r.is_dark_mode is None,
            !r.show_layer_borders,
            !r.show_line_numbers,
            r.character_sets.character_sets@.len() == 1,
            r.character_sets.character_sets@[0].font_checksum == 0,
            rows_of(r.character_sets.character_sets@[0]) == default_char_rows(),
    {
        Settings {
            font_outline_style: 0,
            character_set: 0,
            is_dark_mode: None,
            show_layer_borders: false,
            show_line_numbers: false,
            character_sets: CharacterSets::default(),
        }
    }
}

impl Settings {
    /// The settings the editor starts with, before it reads a settings file:
    /// outline style 0, character set 5, layer borders shown, line numbers
    /// hidden, no theme chosen, and the default character sets.
    pub fn startup() -> (r: Settings)
        ensures
            r.font_outline_style == 0,
            r.character_set == 5,
            r.is_dark_mode is None,
            r.show_layer_borders,
            !r.show_line_numbers,
            r.character_sets.character_sets@.len() == 1,
            r.character_sets.character_sets@[0].font_checksum == 0,
            rows_of(r.character_sets.character_sets@[0]) == default_char_rows(),
    {
        Settings {
            font_outline_style: 0,
            character_set: 5,
            is_dark_mode: None,
            show_layer_borders: true,
            show_line_numbers: false,
            character_sets: CharacterSets::default(),
        }
    }

    pub fn set_font_outline_style(&mut self, font_outline_style: usize)
        ensures
            final(self).font_outline_style == font_outline_style,
            final(self).character_set == old(self).character_set,
            final(self).is_dark_mode == old(self).is_dark_mode,
            final(self).show_layer_borders == old(self).show_layer_borders,
            final(self).show_line_numbers == old(self).show_line_numbers,
            final(self).character_sets == old(self).character_sets,
    {
        self.font_outline_style = font_outline_style;
    }

    pub fn get_font_outline_style(&self) -> (r: usize)
        ensures
            r == self.font_outline_style,
    {
        self.font_outline_style
    }

    pub fn set_character_set(&mut self, character_set: usize)
        ensures
            final(self).character_set == character_set,
            final(self).font_outline_style == old(self).font_outline_style,
            final(self).is_dark_mode == old(self).is_dark_mode,
            final(self).show_layer_borders == old(self).show_layer_borders,
            final(self).show_line_numbers == old(self).show_line_numbers,
            final(self).character_sets == old(self).character_sets,
    {
        self.character_set = character_set;
    }

    pub fn get_character_set(&self) -> (r: usize)
        ensures
            r == self.character_set,
    {
        self.character_set
    }

    /// The character that key `ch` types in the current character set row,
    /// for the font with checksum `checksum`.
    pub fn get_character_set_char(&self, checksum: u32, ch: usize) -> (r: char)
        requires
            self.character_sets.character_sets@.len() > 0,
        ensures
            r == character_set_char(self.character_sets.character_sets@, self.character_set as int, checksum, ch as int),
    {
        let sets = &self.character_sets.character_sets;
        let n = sets.len();
        let mut i: usize = 0;
        while i < n && sets[i].font_checksum != checksum
            invariant
                n == sets@.len(),
                i <= n,
                forall|j: int| 0 <= j < i ==> #[trigger] sets@[j].font_checksum != checksum,
            decreases n - i,
        {
            i = i + 1;
        }
        let idx: usize = if i < n {
            i
        } else {
            0
        };
        proof {
            if i < n {
                assert(sets@[i as int].font_checksum == checksum);
                let k = index_of_font(sets@, checksum);
                assert(0 <= k < sets@.len() && sets@[k].font_checksum == checksum && forall|j: int|
                    0 <= j < k ==> #[trigger] sets@[j].font_checksum != checksum);
                if k < i {
                    assert(sets@[k].font_checksum != checksum);
                }
                if k > i {
                    assert(sets@[i as int].font_checksum != checksum);
                }
                assert(k == idx);
            } else {
                assert(!exists|j: int| 0 <= j < sets@.len() && #[trigger] sets@[j].font_checksum == checksum);
            }
        }
        let set = &sets[idx];
        let cs = self.character_set;
        proof {
            assert(rows_of(*set).len() == set.table@.len());
            if cs < set.table@.len() {
                assert(rows_of(*set)[cs as int] == set.table@[cs as int]@);
            }
        }
        if cs >= set.table.len() || ch >= set.table[cs].len() {
            return ' ';
        }
        set.table[cs][ch]
    }

    /// The theme that the dark-mode setting asks for.
    pub fn get_theme(&self) -> (r: ThemePreference)
        ensures
            r == theme_for(self.is_dark_mode),
    {
        match self.is_dark_mode {
            Some(dark_mode) => if dark_mode {
                ThemePreference::Dark
            } else {
                ThemePreference::Light
            },
            None => ThemePreference::System,
        }
    }

    /// Takes the character sets read from their own file, or the default
    /// ones where none could be read.
    pub fn use_loaded_character_sets(&mut self, loaded: Option<CharacterSets>)
        ensures
            loaded matches Some(c) ==> final(self).character_sets == c,
            loaded is None ==> final(self).character_sets.character_sets@.len() == 1
                && final(self).character_sets.character_sets@[0].font_checksum == 0
                && rows_of(final(self).character_sets.character_sets@[0]) == default_char_rows(),
            final(self).font_outline_style == old(self).font_outline_style,
            final(self).character_set == old(self).character_set,
            final(self).is_dark_mode == old(self).is_dark_mode,
            final(self).show_layer_borders == old(self).show_layer_borders,
            final(self).show_line_numbers == old(self).show_line_numbers,
    {
        match loaded {
            Some(c) => {
                self.character_sets = c;
            },
            None => {
                self.character_sets = CharacterSets::default();
            },
        }
    }

    /// The log file, in the configuration directory `dir`.
    pub fn get_log_file(dir: Option<String>) -> (r: Result<String, IcyDrawError>)
        ensures
            dir is None <==> r is Err,
            r matches Err(e) ==> (e matches IcyDrawError::ErrorCreatingDirectory(m) && m@ == "log_file"@),
            r matches Ok(p) ==> joined(dir->Some_0@, "icy_draw.log"@, p@),
    {
        proof {
            reveal_strlit("icy_draw.log");
        }
        path_in_config_dir(dir, "icy_draw.log", "log_file")
    }

    /// The settings file, in the configuration directory `dir`.
    pub fn get_settings_file(dir: Option<String>) -> (r: Result<String, IcyDrawError>)
        ensures
            dir is None <==> r is Err,
            r matches Err(e) ==> (e matches IcyDrawError::ErrorCreatingDirectory(m) && m@ == "settings file"@),
            r matches Ok(p) ==> joined(dir->Some_0@, "settings.json"@, p@),
    {
        proof {
            reveal_strlit("settings.json");
        }
        path_in_config_dir(dir, "settings.json", "settings file")
    }

    /// Where the fonts are kept, in the configuration directory `dir`.
    pub fn font_directory_path(dir: Option<String>) -> (r: Result<String, IcyDrawError>)
        ensures
            dir is None <==> r is Err,
            r matches Err(e) ==> (e matches IcyDrawError::ErrorCreatingDirectory(m) && m@ == "font directory"@),
            r matches Ok(p) ==> joined(dir->Some_0@, "data/fonts"@, p@),
    {
        proof {
            reveal_strlit("data/fonts");
        }
        path_in_config_dir(dir, "data/fonts", "font directory")
    }

    /// Where the palettes are kept, in the configuration directory `dir`. (Its
    /// error names the font directory.)
    pub fn palettes_directory_path(dir: Option<String>) -> (r: Result<String, IcyDrawError>)
        ensures
            dir is None <==> r is Err,
            r matches Err(e) ==> (e matches IcyDrawError::ErrorCreatingDirectory(m) && m@ == "font directory"@),
            r matches Ok(p) ==> joined(dir->Some_0@, "data/palettes"@, p@),
    {
        proof {
            reveal_strlit("data/palettes");
        }
        path_in_config_dir(dir, "data/palettes", "font directory")
    }

    /// Where drawings are saved automatically, in the configuration
    /// directory.
    pub fn auto_save_directory_path(dir: Option<String>) -> (r: Result<String, IcyDrawError>)
        ensures
            dir is None <==> r is Err,
            r matches Err(e) ==> (e matches IcyDrawError::ErrorCreatingDirectory(m) && m@ == "autosave directory"@),
            r matches Ok(p) ==> joined(dir->Some_0@, "autosave"@, p@),
    {
        proof {
            reveal_strlit("autosave");
        }
        path_in_config_dir(dir, "autosave", "autosave directory")
    }

    /// Where the plugins are kept, in the configuration directory `dir`.
    pub fn plugin_directory_path(dir: Option<String>) -> (r: Result<String, IcyDrawError>)
        ensures
            dir is None <==> r is Err,
            r matches Err(e) ==> (e matches IcyDrawError::ErrorCreatingDirectory(m) && m@ == "plugin directory"@),
            r matches Ok(p) ==> joined(dir->Some_0@, "data/plugins"@, p@),
    {
        proof {
            reveal_strlit("data/plugins");
        }
        path_in_config_dir(dir, "data/plugins", "plugin directory")
    }
}

} // verus!
