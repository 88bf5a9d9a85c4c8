//! The localizer's settings.

use vstd::prelude::*;

use crate::localizing::locale::Locale;
use crate::localizing::text::{Text, TextRef, TextView};
use crate::localizing::{LocalizingError, ErrorView};

verus! {

/// The localizer's settings.
#[derive(Clone, Debug, PartialEq, Eq)]
pub struct Settings {
    /// The localizer's default locale.
    pub default_locale: Locale,
    /// The directory within which to read language files.
    pub directory: String,
    /// The behavior that the localizer will exhibit when it fails to translate a key.
    pub miss_behavior: MissingBehavior,
    /// The localizing thread's output queue capacity. If set to '1', no buffering will be done.
    pub queue_capacity: usize,
    /// The amount of depth at which to search for a translation key in language files with
    /// inherited translations.
    pub search_depth: usize,
}

/// The behavior to follow when the localizer is unable to translate a key.
#[derive(Clone, Copy, Debug, Hash, PartialEq, Eq, Structural)]
pub enum MissingBehavior {
    /// Returns a string that is representative of the missing key.
    Return,
    /// Returns an error.
    Error,
}

/// What a missing behavior answers for a missing key.
pub open spec fn spec_missing(behavior: MissingBehavior, category: Seq<char>, key: Seq<char>) -> Result<
    TextView,
    ErrorView,
> {
    match behavior {
        MissingBehavior::Return => Ok(TextView::Missing(category, key)),
        MissingBehavior::Error => Err(ErrorView::MissingText(category, key)),
    }
}

impl MissingBehavior {
    /// Calls the missing behavior.
    ///
    /// # Errors
    ///
    /// This function will return an error if the miss behavior specifies that outcome.
    pub fn call(&self, category: &str, key: &str) -> (r: Result<Text, LocalizingError>)
        ensures
            match r {
                Ok(t) => Ok::<TextView, ErrorView>(t@) == spec_missing(*self, category@, key@),
                Err(e) => Err::<TextView, ErrorView>(e@) == spec_missing(*self, category@, key@),
            },
    {
        match self {
            MissingBehavior::Return => Ok(Text::Missing(category.to_owned(), key.to_owned())),
            MissingBehavior::Error => Err(LocalizingError::MissingText(category.to_owned(), key.to_owned())),
        }
    }

    /// Calls the missing behavior, borrowing the category and key.
    pub fn call_ref<'tx: 'fc, 'fc>(&self, category: &'fc str, key: &'fc str) -> (r: Result<
        TextRef<'tx, 'fc>,
        LocalizingError,
    >)
        ensures
            match r {
                Ok(t) => Ok::<TextView, ErrorView>(t@) == spec_missing(*self, category@, key@),
                Err(e) => Err::<TextView, ErrorView>(e@) == spec_missing(*self, category@, key@),
            },
    {
        match self {
            MissingBehavior::Return => Ok(TextRef::Missing(category, key)),
            MissingBehavior::Error => Err(LocalizingError::MissingText(category.to_owned(), key.to_owned())),
        }
    }

    /// Returns the behavior's name as written in settings.
    pub fn name(&self) -> (r: &'static str)
        ensures
            r@ == match self {
                MissingBehavior::Return => "return"@,
                MissingBehavior::Error => "error"@,
            },
    {
        match self {
            MissingBehavior::Return => "return",
            MissingBehavior::Error => "error",
        }
    }
}

impl Default for MissingBehavior {
    fn default() -> (r: MissingBehavior)
        ensures
            r == MissingBehavior::Return,
    {
        MissingBehavior::Return
    }
}

/// Returns the default queue capacity.
pub fn default_queue_capacity() -> (r: usize)
    ensures
        r == 8,
{
    8
}

/// Returns the default recursive search depth.
pub fn default_search_depth() -> (r: usize)
    ensures
        r == 2,
{
    2
}

} // verus!
