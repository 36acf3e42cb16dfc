//! Screens, menu entries, settings and saved entries of the application.
use vstd::prelude::*;
use vstd::string::StrSliceExecFns;

use crate::barcode::{auto_detect, detected_format, encode, encoding_of, Barcode};
use crate::format::{next_of, BarcodeFormat};
use crate::text::{pop_char, push_char};

verus! {

/// The screen the application is on.
#[derive(Debug, Clone, Copy, PartialEq, Eq, Structural)]
pub enum AppState {
    MainMenu,
    Input,
    Display,
    SavePrompt,
    SaveNameEntry,
    LoadList,
    Settings,
    Help,
}

/// An entry of the main menu.
#[derive(Debug, Clone, Copy, PartialEq, Eq, Structural)]
pub enum MenuItem {
    NewBarcode,
    SavedCodes,
    Settings,
    Help,
}

pub open spec fn menu_label_of(m: MenuItem) -> Seq<char> {
    match m {
        MenuItem::NewBarcode => "New Barcode"@,
        MenuItem::SavedCodes => "Saved Codes"@,
        MenuItem::Settings => "Settings"@,
        MenuItem::Help => "Help"@,
    }
}

impl MenuItem {
    /// The text shown for the entry.
    pub fn label(&self) -> (r: &'static str)
        ensures
            r@ == menu_label_of(*self),
    {
        match self {
            MenuItem::NewBarcode => "New Barcode",
            MenuItem::SavedCodes => "Saved Codes",
            MenuItem::Settings => "Settings",
            MenuItem::Help => "Help",
        }
    }

    /// The entries, top to bottom.
    pub fn all() -> (r: &'static [MenuItem])
        ensures
            r@ == seq![MenuItem::NewBarcode, MenuItem::SavedCodes, MenuItem::Settings, MenuItem::Help],
    {
        &[MenuItem::NewBarcode, MenuItem::SavedCodes, MenuItem::Settings, MenuItem::Help]
    }
}

/// How barcodes are drawn and which format is used.
#[derive(Debug, Clone, Copy, PartialEq, Eq, Structural)]
pub struct BarcodeSettings {
    /// Pixels per module, 1 to 4.
    pub bar_width: u8,
    /// Bar height in pixels, 80 to 300.
    pub bar_height: u16,
    /// The format used when `auto_format` is off.
    pub format: BarcodeFormat,
    /// Pick the format from the text.
    pub auto_format: bool,
}

impl Default for BarcodeSettings {
    fn default() -> (r: Self)
        ensures
            r == (BarcodeSettings {
                bar_width: 2,
                bar_height: 200,
                format: BarcodeFormat::Code128,
                auto_format: true,
            }),
    {
        BarcodeSettings { bar_width: 2, bar_height: 200, format: BarcodeFormat::Code128, auto_format: true }
    }
}

/// A named text kept for later; its symbol is encoded again on load.
#[derive(Debug, Clone)]
pub struct SavedBarcode {
    pub name: String,
    pub text: String,
    pub format: BarcodeFormat,
}

impl View for SavedBarcode {
    type V = (Seq<char>, Seq<char>, BarcodeFormat);

    open spec fn view(&self) -> (Seq<char>, Seq<char>, BarcodeFormat) {
        (self.name@, self.text@, self.format)
    }
}

impl View for Barcode {
    type V = (Seq<bool>, Seq<char>, BarcodeFormat);

    open spec fn view(&self) -> (Seq<bool>, Seq<char>, BarcodeFormat) {
        (self.modules@, self.text@, self.format)
    }
}

pub const KEY_UP: char = '\u{2191}';
pub const KEY_DOWN: char = '\u{2193}';
pub const KEY_LEFT: char = '\u{2190}';
pub const KEY_RIGHT: char = '\u{2192}';
pub const KEY_ENTER: char = '\r';
pub const KEY_BACKSPACE: char = '\u{0008}';
/// Function keys F1 to F4 choose a format directly.
pub const KEY_F1: char = '\u{F001}';
pub const KEY_F2: char = '\u{F002}';
pub const KEY_F3: char = '\u{F003}';
pub const KEY_F4: char = '\u{F004}';

/// Longest text that can be typed in.
pub const MAX_TEXT_LEN: usize = 80;
/// Longest name a saved entry can have.
pub const MAX_NAME_LEN: usize = 30;

/// The application as the contracts see it.
#[verifier::ext_equal]
pub ghost struct AppModel {
    pub state: AppState,
    pub menu_index: int,
    pub input: Seq<char>,
    pub barcode: Option<(Seq<bool>, Seq<char>, BarcodeFormat)>,
    pub barcode_text: Seq<char>,
    pub settings: BarcodeSettings,
    pub saved: Seq<(Seq<char>, Seq<char>, BarcodeFormat)>,
    pub load_index: int,
    pub save_name: Seq<char>,
    pub settings_index: int,
    pub needs_redraw: bool,
    pub settings_changed: bool,
    pub codes_changed: bool,
}

/// A printable ASCII character or the space: what text entry accepts.
pub open spec fn is_text_key(c: char) -> bool {
    ('!' <= c && c <= '~') || c == ' '
}

pub open spec fn is_quit_key(c: char) -> bool {
    c == 'q' || c == 'Q'
}

/// The format an encode uses: detected from the text when automatic
/// selection is on and there is text, else the chosen one.
pub open spec fn active_format_of(m: AppModel) -> BarcodeFormat {
    if m.settings.auto_format && m.input.len() > 0 {
        detected_format(m.input)
    } else {
        m.settings.format
    }
}

/// Encodes the input; on success shows the symbol, else nothing changes.
pub open spec fn generate(m: AppModel) -> AppModel {
    let f = active_format_of(m);
    match encoding_of(m.input, f) {
        Some((modules, text)) => AppModel {
            barcode_text: m.input,
            barcode: Some((modules, text, f)),
            state: AppState::Display,
            ..m
        },
        None => m,
    }
}

/// A key that means nothing on the current screen: no redraw.
pub open spec fn ignored(m: AppModel) -> AppModel {
    AppModel { needs_redraw: false, ..m }
}

pub open spec fn menu_items() -> Seq<MenuItem> {
    seq![MenuItem::NewBarcode, MenuItem::SavedCodes, MenuItem::Settings, MenuItem::Help]
}

pub open spec fn menu_step(m: AppModel, key: char) -> (AppModel, bool) {
    if key == KEY_UP {
        (AppModel { menu_index: if m.menu_index > 0 { m.menu_index - 1 } else { m.menu_index }, ..m }, true)
    } else if key == KEY_DOWN {
        (AppModel { menu_index: if m.menu_index < 3 { m.menu_index + 1 } else { m.menu_index }, ..m }, true)
    } else if key == KEY_ENTER {
        (match menu_items()[m.menu_index] {
            MenuItem::NewBarcode => AppModel { input: Seq::empty(), state: AppState::Input, ..m },
            MenuItem::SavedCodes => AppModel { load_index: 0, state: AppState::LoadList, ..m },
            MenuItem::Settings => AppModel { settings_index: 0, state: AppState::Settings, ..m },
            MenuItem::Help => AppModel { state: AppState::Help, ..m },
        }, true)
    } else if key == 'n' || key == 'N' {
        (AppModel { input: Seq::empty(), state: AppState::Input, ..m }, true)
    } else if is_quit_key(key) {
        (m, false)
    } else {
        (ignored(m), true)
    }
}

pub open spec fn with_format(m: AppModel, f: BarcodeFormat) -> AppModel {
    AppModel { settings: BarcodeSettings { auto_format: false, format: f, ..m.settings }, ..m }
}

pub open spec fn input_step(m: AppModel, key: char) -> AppModel {
    if key == KEY_ENTER {
        if m.input.len() > 0 { generate(m) } else { m }
    } else if key == KEY_BACKSPACE {
        AppModel { input: if m.input.len() > 0 { m.input.drop_last() } else { m.input }, ..m }
    } else if is_quit_key(key) && m.input.len() == 0 {
        AppModel { state: AppState::MainMenu, ..m }
    } else if key == KEY_F1 {
        with_format(m, BarcodeFormat::Code128)
    } else if key == KEY_F2 {
        with_format(m, BarcodeFormat::Code39)
    } else if key == KEY_F3 {
        with_format(m, BarcodeFormat::Ean13)
    } else if key == KEY_F4 {
        with_format(m, BarcodeFormat::UpcA)
    } else if is_text_key(key) {
        if m.input.len() < MAX_TEXT_LEN { AppModel { input: m.input.push(key), ..m } } else { m }
    } else {
        ignored(m)
    }
}

pub open spec fn with_size(m: AppModel, width: u8, height: u16) -> AppModel {
    AppModel {
        settings: BarcodeSettings { bar_width: width, bar_height: height, ..m.settings },
        settings_changed: true,
        ..m
    }
}

pub open spec fn display_step(m: AppModel, key: char) -> AppModel {
    let w = m.settings.bar_width;
    let h = m.settings.bar_height;
    if is_quit_key(key) {
        AppModel { state: AppState::MainMenu, ..m }
    } else if key == 'n' || key == 'N' {
        AppModel { input: Seq::empty(), state: AppState::Input, ..m }
    } else if key == 's' || key == 'S' {
        AppModel { save_name: Seq::empty(), state: AppState::SavePrompt, ..m }
    } else if key == KEY_UP {
        if h < 300 { with_size(m, w, (h + 20) as u16) } else { m }
    } else if key == KEY_DOWN {
        if h > 80 { with_size(m, w, (h - 20) as u16) } else { m }
    } else if key == KEY_RIGHT {
        if w < 4 { with_size(m, (w + 1) as u8, h) } else { m }
    } else if key == KEY_LEFT {
        if w > 1 { with_size(m, (w - 1) as u8, h) } else { m }
    } else {
        ignored(m)
    }
}

pub open spec fn save_prompt_step(m: AppModel, key: char) -> AppModel {
    if key == 'y' || key == 'Y' || key == KEY_ENTER {
        AppModel { save_name: Seq::empty(), state: AppState::SaveNameEntry, ..m }
    } else if key == 'n' || key == 'N' || is_quit_key(key) {
        AppModel { state: AppState::Display, ..m }
    } else {
        ignored(m)
    }
}

/// The format of the symbol on show, Code 128 when there is none.
pub open spec fn shown_format(m: AppModel) -> BarcodeFormat {
    match m.barcode {
        Some((_, _, f)) => f,
        None => BarcodeFormat::Code128,
    }
}

pub open spec fn save_name_step(m: AppModel, key: char) -> AppModel {
    if key == KEY_ENTER {
        if m.save_name.len() > 0 {
            AppModel {
                saved: m.saved.push((m.save_name, m.barcode_text, shown_format(m))),
                codes_changed: true,
                state: AppState::Display,
                ..m
            }
        } else {
            m
        }
    } else if key == KEY_BACKSPACE {
        AppModel {
            save_name: if m.save_name.len() > 0 { m.save_name.drop_last() } else { m.save_name },
            ..m
        }
    } else if is_quit_key(key) && m.save_name.len() == 0 {
        AppModel { state: AppState::Display, ..m }
    } else if is_text_key(key) {
        if m.save_name.len() < MAX_NAME_LEN {
            AppModel { save_name: m.save_name.push(key), ..m }
        } else {
            m
        }
    } else {
        ignored(m)
    }
}

/// Loads the selected entry into the input with its format, then encodes.
pub open spec fn load_selected(m: AppModel) -> AppModel {
    let (name, text, f) = m.saved[m.load_index];
    generate(AppModel { input: text, ..with_format(m, f) })
}

/// Removes the selected entry and keeps the selection in range.
pub open spec fn delete_selected(m: AppModel) -> AppModel {
    let saved = m.saved.remove(m.load_index);
    AppModel {
        saved: saved,
        codes_changed: true,
        load_index: if m.load_index > 0 && m.load_index >= saved.len() {
            saved.len() - 1
        } else {
            m.load_index
        },
        ..m
    }
}

pub open spec fn load_step(m: AppModel, key: char) -> AppModel {
    if key == KEY_UP {
        AppModel { load_index: if m.load_index > 0 { m.load_index - 1 } else { m.load_index }, ..m }
    } else if key == KEY_DOWN {
        AppModel {
            load_index: if m.saved.len() > 0 && m.load_index < m.saved.len() - 1 {
                m.load_index + 1
            } else {
                m.load_index
            },
            ..m
        }
    } else if key == KEY_ENTER {
        if m.saved.len() > 0 { load_selected(m) } else { m }
    } else if key == 'd' || key == 'D' {
        if m.saved.len() > 0 { delete_selected(m) } else { m }
    } else if is_quit_key(key) {
        AppModel { state: AppState::MainMenu, ..m }
    } else {
        ignored(m)
    }
}

/// Changes the setting under the cursor; right and enter step forward,
/// left steps back.
pub open spec fn adjust_setting(m: AppModel, key: char) -> AppModel {
    let s = m.settings;
    let forward = key == KEY_RIGHT || key == KEY_ENTER;
    let s2 = if m.settings_index == 0 {
        BarcodeSettings { format: next_of(s.format), ..s }
    } else if m.settings_index == 1 {
        BarcodeSettings { auto_format: !s.auto_format, ..s }
    } else if m.settings_index == 2 {
        BarcodeSettings {
            bar_width: if forward {
                (s.bar_width % 4 + 1) as u8
            } else if s.bar_width <= 1 {
                4
            } else {
                (s.bar_width - 1) as u8
            },
            ..s
        }
    } else if m.settings_index == 3 {
        BarcodeSettings {
            bar_height: if forward {
                if s.bar_height + 20 > 300 { 300 } else { (s.bar_height + 20) as u16 }
            } else if s.bar_height < 100 {
                80
            } else {
                (s.bar_height - 20) as u16
            },
            ..s
        }
    } else {
        s
    };
    AppModel { settings: s2, settings_changed: true, ..m }
}

pub open spec fn settings_step(m: AppModel, key: char) -> AppModel {
    if key == KEY_UP {
        AppModel {
            settings_index: if m.settings_index > 0 { m.settings_index - 1 } else { m.settings_index },
            ..m
        }
    } else if key == KEY_DOWN {
        AppModel {
            settings_index: if m.settings_index < 3 { m.settings_index + 1 } else { m.settings_index },
            ..m
        }
    } else if key == KEY_LEFT || key == KEY_RIGHT || key == KEY_ENTER {
        adjust_setting(m, key)
    } else if is_quit_key(key) {
        AppModel { state: AppState::MainMenu, ..m }
    } else {
        ignored(m)
    }
}

pub open spec fn help_step(m: AppModel, key: char) -> AppModel {
    if is_quit_key(key) || key == KEY_ENTER || key == KEY_BACKSPACE {
        AppModel { state: AppState::MainMenu, ..m }
    } else {
        ignored(m)
    }
}

/// One key press: the next model, and whether the application goes on.
pub open spec fn key_step(m0: AppModel, key: char) -> (AppModel, bool) {
    let m = AppModel { needs_redraw: true, ..m0 };
    match m.state {
        AppState::MainMenu => menu_step(m, key),
        AppState::Input => (input_step(m, key), true),
        AppState::Display => (display_step(m, key), true),
        AppState::SavePrompt => (save_prompt_step(m, key), true),
        AppState::SaveNameEntry => (save_name_step(m, key), true),
        AppState::LoadList => (load_step(m, key), true),
        AppState::Settings => (settings_step(m, key), true),
        AppState::Help => (help_step(m, key), true),
    }
}

/// The application: current screen, text being typed, symbol on show,
/// settings and saved entries. Storage lives outside; `settings_changed`
/// and `codes_changed` tell its owner what to write.
pub struct BarcodeApp {
    pub state: AppState,
    pub menu_index: usize,
    pub input_text: String,
    pub barcode: Option<Barcode>,
    pub barcode_text: String,
    pub settings: BarcodeSettings,
    pub saved_codes: Vec<SavedBarcode>,
    pub load_index: usize,
    pub save_name: String,
    pub settings_index: usize,
    pub needs_redraw: bool,
    /// The settings changed and should be written out.
    pub settings_changed: bool,
    /// The saved entries changed and should be written out.
    pub codes_changed: bool,
}

impl View for BarcodeApp {
    type V = AppModel;

    open spec fn view(&self) -> AppModel {
        AppModel {
            state: self.state,
            menu_index: self.menu_index as int,
            input: self.input_text@,
            barcode: match self.barcode {
                Some(b) => Some(b@),
                None => None,
            },
            barcode_text: self.barcode_text@,
            settings: self.settings,
            saved: self.saved_codes@.map_values(|c: SavedBarcode| c@),
            load_index: self.load_index as int,
            save_name: self.save_name@,
            settings_index: self.settings_index as int,
            needs_redraw: self.needs_redraw,
            settings_changed: self.settings_changed,
            codes_changed: self.codes_changed,
        }
    }
}

impl BarcodeApp {
    /// The menu cursor is on an entry, and the load cursor on an entry
    /// when there are any.
    pub open spec fn wf(&self) -> bool {
        &&& self.menu_index < 4
        &&& (self.load_index == 0 || self.load_index < self.saved_codes@.len())
    }

    /// Starts on the main menu with default settings and nothing saved.
    pub fn new() -> (r: Self)
        ensures
            r.wf(),
            r@ == (AppModel {
                state: AppState::MainMenu,
                menu_index: 0,
                input: Seq::empty(),
                barcode: None,
                barcode_text: Seq::empty(),
                settings: BarcodeSettings {
                    bar_width: 2,
                    bar_height: 200,
                    format: BarcodeFormat::Code128,
                    auto_format: true,
                },
                saved: Seq::empty(),
                load_index: 0,
                save_name: Seq::empty(),
                settings_index: 0,
                needs_redraw: true,
                settings_changed: false,
                codes_changed: false,
            }),
    {
        let r = BarcodeApp {
            state: AppState::MainMenu,
            menu_index: 0,
            input_text: String::new(),
            barcode: None,
            barcode_text: String::new(),
            settings: BarcodeSettings::default(),
            saved_codes: Vec::new(),
            load_index: 0,
            save_name: String::new(),
            settings_index: 0,
            needs_redraw: true,
            settings_changed: false,
            codes_changed: false,
        };
        assert(r@.saved =~= Seq::empty());
        r
    }

    /// The format an encode of the current input uses.
    pub fn active_format(&self) -> (r: BarcodeFormat)
        ensures
            r == active_format_of(self@),
    {
        if self.settings.auto_format && !self.input_text.as_str().is_empty() {
            auto_detect(self.input_text.as_str())
        } else {
            self.settings.format
        }
    }

    /// Handles one key press; `false` when the application should quit.
    pub fn handle_key(&mut self, key: char) -> (r: bool)
        requires
            old(self).wf(),
        ensures
            final(self).wf(),
            (final(self)@, r) == key_step(old(self)@, key),
    {
        self.needs_redraw = true;
        match self.state {
            AppState::MainMenu => self.handle_menu_key(key),
            AppState::Input => self.handle_input_key(key),
            AppState::Display => self.handle_display_key(key),
            AppState::SavePrompt => self.handle_save_prompt_key(key),
            AppState::SaveNameEntry => self.handle_save_name_key(key),
            AppState::LoadList => self.handle_load_key(key),
            AppState::Settings => self.handle_settings_key(key),
            AppState::Help => self.handle_help_key(key),
        }
    }

    fn clear_input(&mut self)
        ensures
            final(self)@ == (AppModel { input: Seq::empty(), ..old(self)@ }),
            final(self).wf() == old(self).wf(),
    {
        self.input_text = String::new();
    }

    fn handle_menu_key(&mut self, key: char) -> (r: bool)
        requires
            old(self).wf(),
        ensures
            final(self).wf(),
            (final(self)@, r) == menu_step(old(self)@, key),
    {
        let items = MenuItem::all();
        if key == KEY_UP {
            if self.menu_index > 0 {
                self.menu_index -= 1;
            }
        } else if key == KEY_DOWN {
            if self.menu_index < items.len() - 1 {
                self.menu_index += 1;
            }
        } else if key == KEY_ENTER {
            match items[self.menu_index] {
                MenuItem::NewBarcode => {
                    self.clear_input();
                    self.state = AppState::Input;
                },
                MenuItem::SavedCodes => {
                    self.load_index = 0;
                    self.state = AppState::LoadList;
                },
                MenuItem::Settings => {
                    self.settings_index = 0;
                    self.state = AppState::Settings;
                },
                MenuItem::Help => self.state = AppState::Help,
            }
        } else if key == 'n' || key == 'N' {
            self.clear_input();
            self.state = AppState::Input;
        } else if key == 'q' || key == 'Q' {
            return false;
        } else {
            self.needs_redraw = false;
        }
        true
    }

    fn set_format(&mut self, f: BarcodeFormat)
        ensures
            final(self)@ == with_format(old(self)@, f),
            final(self).wf() == old(self).wf(),
    {
        self.settings.auto_format = false;
        self.settings.format = f;
    }

    fn handle_input_key(&mut self, key: char) -> (r: bool)
        requires
            old(self).wf(),
        ensures
            r,
            final(self).wf(),
            final(self)@ == input_step(old(self)@, key),
    {
        if key == KEY_ENTER {
            if !self.input_text.as_str().is_empty() {
                self.generate_barcode();
            }
        } else if key == KEY_BACKSPACE {
            pop_char(&mut self.input_text);
        } else if (key == 'q' || key == 'Q') && self.input_text.as_str().is_empty() {
            self.state = AppState::MainMenu;
        } else if key == KEY_F1 {
            self.set_format(BarcodeFormat::Code128);
        } else if key == KEY_F2 {
            self.set_format(BarcodeFormat::Code39);
        } else if key == KEY_F3 {
            self.set_format(BarcodeFormat::Ean13);
        } else if key == KEY_F4 {
            self.set_format(BarcodeFormat::UpcA);
        } else if ('!' <= key && key <= '~') || key == ' ' {
            if self.input_text.as_str().unicode_len() < MAX_TEXT_LEN {
                push_char(&mut self.input_text, key);
            }
        } else {
            self.needs_redraw = false;
        }
        true
    }

    /// Encodes the input in the active format; on success the symbol is
    /// shown, else nothing changes.
    fn generate_barcode(&mut self)
        ensures
            final(self)@ == generate(old(self)@),
            final(self).wf() == old(self).wf(),
    {
        let format = self.active_format();
        match encode(self.input_text.as_str(), format) {
            Some(barcode) => {
                self.barcode_text = self.input_text.clone();
                self.barcode = Some(barcode);
                self.state = AppState::Display;
            },
            None => {},
        }
    }

    fn set_size(&mut self, width: u8, height: u16)
        ensures
            final(self)@ == with_size(old(self)@, width, height),
            final(self).wf() == old(self).wf(),
    {
        self.settings.bar_width = width;
        self.settings.bar_height = height;
        self.settings_changed = true;
    }

    fn handle_display_key(&mut self, key: char) -> (r: bool)
        requires
            old(self).wf(),
        ensures
            r,
            final(self).wf(),
            final(self)@ == display_step(old(self)@, key),
    {
        let w = self.settings.bar_width;
        let h = self.settings.bar_height;
        if key == 'q' || key == 'Q' {
            self.state = AppState::MainMenu;
        } else if key == 'n' || key == 'N' {
            self.clear_input();
            self.state = AppState::Input;
        } else if key == 's' || key == 'S' {
            self.save_name = String::new();
            self.state = AppState::SavePrompt;
        } else if key == KEY_UP {
            if h < 300 {
                self.set_size(w, h + 20);
            }
        } else if key == KEY_DOWN {
            if h > 80 {
                self.set_size(w, h - 20);
            }
        } else if key == KEY_RIGHT {
            if w < 4 {
                self.set_size(w + 1, h);
            }
        } else if key == KEY_LEFT {
            if w > 1 {
                self.set_size(w - 1, h);
            }
        } else {
            self.needs_redraw = false;
        }
        true
    }

    fn handle_save_prompt_key(&mut self, key: char) -> (r: bool)
        requires
            old(self).wf(),
        ensures
            r,
            final(self).wf(),
            final(self)@ == save_prompt_step(old(self)@, key),
    {
        if key == 'y' || key == 'Y' || key == KEY_ENTER {
            self.save_name = String::new();
            self.state = AppState::SaveNameEntry;
        } else if key == 'n' || key == 'N' || key == 'q' || key == 'Q' {
            self.state = AppState::Display;
        } else {
            self.needs_redraw = false;
        }
        true
    }

    fn handle_save_name_key(&mut self, key: char) -> (r: bool)
        requires
            old(self).wf(),
        ensures
            r,
            final(self).wf(),
            final(self)@ == save_name_step(old(self)@, key),
    {
        if key == KEY_ENTER {
            if !self.save_name.as_str().is_empty() {
                let format = match &self.barcode {
                    Some(b) => b.format,
                    None => BarcodeFormat::Code128,
                };
                let code = SavedBarcode {
                    name: self.save_name.clone(),
                    text: self.barcode_text.clone(),
                    format,
                };
                let ghost prev = self.saved_codes@;
                self.saved_codes.push(code);
                self.codes_changed = true;
                self.state = AppState::Display;
                assert(self.saved_codes@.map_values(|c: SavedBarcode| c@) =~= prev.map_values(
                    |c: SavedBarcode| c@,
                ).push(code@));
            }
        } else if key == KEY_BACKSPACE {
            pop_char(&mut self.save_name);
        } else if (key == 'q' || key == 'Q') && self.save_name.as_str().is_empty() {
            self.state = AppState::Display;
        } else if ('!' <= key && key <= '~') || key == ' ' {
            if self.save_name.as_str().unicode_len() < MAX_NAME_LEN {
                push_char(&mut self.save_name, key);
            }
        } else {
            self.needs_redraw = false;
        }
        true
    }

    fn handle_load_key(&mut self, key: char) -> (r: bool)
        requires
            old(self).wf(),
        ensures
            r,
            final(self).wf(),
            final(self)@ == load_step(old(self)@, key),
    {
        let n = self.saved_codes.len();
        if key == KEY_UP {
            if self.load_index > 0 {
                self.load_index -= 1;
            }
        } else if key == KEY_DOWN {
            if n > 0 && self.load_index < n - 1 {
                self.load_index += 1;
            }
        } else if key == KEY_ENTER {
            if n > 0 {
                let text = self.saved_codes[self.load_index].text.clone();
                let format = self.saved_codes[self.load_index].format;
                self.input_text = text;
                self.set_format(format);
                self.generate_barcode();
            }
        } else if key == 'd' || key == 'D' {
            if n > 0 {
                let ghost prev = self.saved_codes@;
                self.saved_codes.remove(self.load_index);
                assert(self.saved_codes@.map_values(|c: SavedBarcode| c@) =~= prev.map_values(
                    |c: SavedBarcode| c@,
                ).remove(self.load_index as int));
                self.codes_changed = true;
                let len = self.saved_codes.len();
                if self.load_index > 0 && self.load_index >= len {
                    self.load_index = len - 1;
                }
            }
        } else if key == 'q' || key == 'Q' {
            self.state = AppState::MainMenu;
        } else {
            self.needs_redraw = false;
        }
        true
    }

    fn handle_settings_key(&mut self, key: char) -> (r: bool)
        requires
            old(self).wf(),
        ensures
            r,
            final(self).wf(),
            final(self)@ == settings_step(old(self)@, key),
    {
        if key == KEY_UP {
            if self.settings_index > 0 {
                self.settings_index -= 1;
            }
        } else if key == KEY_DOWN {
            if self.settings_index < 3 {
                self.settings_index += 1;
            }
        } else if key == KEY_LEFT || key == KEY_RIGHT || key == KEY_ENTER {
            let forward = key == KEY_RIGHT || key == KEY_ENTER;
            let w = self.settings.bar_width;
            let h = self.settings.bar_height;
            if self.settings_index == 0 {
                self.settings.format = self.settings.format.next();
            } else if self.settings_index == 1 {
                self.settings.auto_format = !self.settings.auto_format;
            } else if self.settings_index == 2 {
                self.settings.bar_width = if forward {
                    w % 4 + 1
                } else if w <= 1 {
                    4
                } else {
                    w - 1
                };
            } else if self.settings_index == 3 {
                self.settings.bar_height = if forward {
                    if h >= 280 { 300 } else { h + 20 }
                } else if h < 100 {
                    80
                } else {
                    h - 20
                };
            }
            self.settings_changed = true;
        } else if key == 'q' || key == 'Q' {
            self.state = AppState::MainMenu;
        } else {
            self.needs_redraw = false;
        }
        true
    }

    fn handle_help_key(&mut self, key: char) -> (r: bool)
        requires
            old(self).wf(),
        ensures
            r,
            final(self).wf(),
            final(self)@ == help_step(old(self)@, key),
    {
        if key == 'q' || key == 'Q' || key == KEY_ENTER || key == KEY_BACKSPACE {
            self.state = AppState::MainMenu;
        } else {
            self.needs_redraw = false;
        }
        true
    }
}

} // verus!
