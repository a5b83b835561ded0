//! Operator configuration: the display language and the scan concurrency,
//! with the concurrency's stepping and clamping rule.
//!
//! Persisting the configuration (a JSON file) is the front end's business.

use vstd::prelude::*;

verus! {

use crate::i18n::Language;

/// Smallest allowed scan concurrency.
pub const MIN_CONCURRENCY: usize = 10;

/// Largest allowed scan concurrency.
pub const MAX_CONCURRENCY: usize = 500;

/// How far one adjustment moves the concurrency.
pub const CONCURRENCY_STEP: usize = 10;

/// The persisted operator settings.
pub struct Config {
    /// Display language.
    pub language: Language,
    /// How many scan probes may be in flight at once.
    pub scan_concurrency: usize,
}

impl Default for Config {
    /// The out-of-the-box settings: Chinese, 50 parallel probes.
    fn default() -> (r: Config)
        ensures
            r.language == Language::Zh,
            r.scan_concurrency == 50,
    {
        Config { language: Language::Zh, scan_concurrency: 50 }
    }
}

/// Where one concurrency adjustment lands: one step up or down, clamped to
/// the allowed range.
pub open spec fn spec_adjusted_concurrency(cur: usize, up: bool) -> usize {
    let moved: int = if up {
        cur + CONCURRENCY_STEP
    } else {
        cur - CONCURRENCY_STEP
    };
    if moved < MIN_CONCURRENCY {
        MIN_CONCURRENCY
    } else if moved > MAX_CONCURRENCY {
        MAX_CONCURRENCY
    } else {
        moved as usize
    }
}

impl Config {
    /// Moves the scan concurrency one step up or down, clamped to
    /// [`MIN_CONCURRENCY`, `MAX_CONCURRENCY`].
    pub fn adjust_concurrency(&mut self, up: bool)
        ensures
            final(self).scan_concurrency == spec_adjusted_concurrency(
                old(self).scan_concurrency,
                up,
            ),
            final(self).language == old(self).language,
    {
        if up {
            if self.scan_concurrency > MAX_CONCURRENCY - CONCURRENCY_STEP {
                self.scan_concurrency = MAX_CONCURRENCY;
            } else if self.scan_concurrency + CONCURRENCY_STEP < MIN_CONCURRENCY {
                self.scan_concurrency = MIN_CONCURRENCY;
            } else {
                self.scan_concurrency = self.scan_concurrency + CONCURRENCY_STEP;
            }
        } else {
            if self.scan_concurrency < MIN_CONCURRENCY + CONCURRENCY_STEP {
                self.scan_concurrency = MIN_CONCURRENCY;
            } else if self.scan_concurrency - CONCURRENCY_STEP > MAX_CONCURRENCY {
                self.scan_concurrency = MAX_CONCURRENCY;
            } else {
                self.scan_concurrency = self.scan_concurrency - CONCURRENCY_STEP;
            }
        }
    }

    /// Switches the display language to the next one in the cycle.
    pub fn toggle_language(&mut self)
        ensures
            final(self).language == (match old(self).language {
                Language::En => Language::Zh,
                Language::Zh => Language::En,
            }),
            final(self).scan_concurrency == old(self).scan_concurrency,
    {
        self.language = self.language.next();
    }
}

} // verus!
