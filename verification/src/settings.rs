//! The settings view: a cursor over the editable rows and what each edit
//! does to the configuration. Saving the file and re-fetching the public
//! address after a language change are the front end's business.

use vstd::prelude::*;

verus! {

use crate::config::{spec_adjusted_concurrency, Config};
use crate::i18n::Language;
use crate::nav::{next_index, previous_index, spec_next_index, spec_previous_index};

/// Number of editable rows: language and scan concurrency.
pub const SETTING_ROWS: usize = 2;

/// Settings view state as the renderer sees it.
pub struct SettingsModule {
    /// Cursor over the setting rows.
    pub selected: Option<usize>,
}

impl SettingsModule {
    /// The cursor stays inside the rows.
    pub open spec fn wf(&self) -> bool {
        match self.selected {
            Some(i) => i < SETTING_ROWS,
            None => true,
        }
    }

    /// A fresh view with the first row selected.
    pub fn new() -> (r: SettingsModule)
        ensures
            r.wf(),
            r.selected == Some(0usize),
    {
        SettingsModule { selected: Some(0) }
    }

    /// Moves the cursor down one row, wrapping.
    pub fn next(&mut self)
        requires
            old(self).wf(),
        ensures
            final(self).wf(),
            final(self).selected == spec_next_index(old(self).selected, SETTING_ROWS as nat),
    {
        self.selected = next_index(self.selected, SETTING_ROWS);
    }

    /// Moves the cursor up one row, wrapping.
    pub fn previous(&mut self)
        requires
            old(self).wf(),
        ensures
            final(self).wf(),
            final(self).selected == spec_previous_index(old(self).selected, SETTING_ROWS as nat),
    {
        self.selected = previous_index(self.selected, SETTING_ROWS);
    }

    /// Applies one edit to the row under the cursor: the language row
    /// toggles the language, the concurrency row steps the concurrency up
    /// or down within its range. Returns whether the language changed, so
    /// the caller can re-localise and re-fetch.
    pub fn change_value(&self, config: &mut Config, up: bool) -> (language_changed: bool)
        requires
            self.wf(),
        ensures
            language_changed == (self.selected == Some(0usize)),
            final(config).language == (if self.selected == Some(0usize) {
                match old(config).language {
                    Language::En => Language::Zh,
                    Language::Zh => Language::En,
                }
            } else {
                old(config).language
            }),
            final(config).scan_concurrency == (if self.selected == Some(1usize) {
                spec_adjusted_concurrency(old(config).scan_concurrency, up)
            } else {
                old(config).scan_concurrency
            }),
    {
        match self.selected {
            Some(0) => {
                config.toggle_language();
                true
            },
            Some(1) => {
                config.adjust_concurrency(up);
                false
            },
            _ => false,
        }
    }
}

} // verus!
