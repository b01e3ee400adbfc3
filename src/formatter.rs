use vstd::prelude::*;

use crate::error::Error;
use crate::key::{Key, KeyPath};

verus! {

/// A named value formatter usable inside an interpolated value, whether its
/// capability is enabled, and what to tell an author who uses it while it is
/// not.
#[derive(Debug, Clone)]
pub struct Formatter {
    pub name: String,
    pub err_message: String,
    pub enabled: bool,
}

impl Formatter {
    /// A second formatter with the same fields.
    pub fn duplicate(&self) -> (r: Formatter)
        ensures
            r.name@ == self.name@,
            r.err_message@ == self.err_message@,
            r.enabled == self.enabled,
    {
        Formatter { name: self.name.clone(), err_message: self.err_message.clone(), enabled: self.enabled }
    }

    /// The explanation shown when the formatter is used while disabled.
    pub fn err_message(&self) -> (r: &str)
        ensures
            r@ == self.err_message@,
    {
        self.err_message.as_str()
    }
}

/// The first formatter at or after `i` named `name`.
pub open spec fn find_formatter(fs: Seq<Formatter>, name: Seq<char>, i: int) -> Option<int>
    decreases fs.len() - i,
{
    if i < 0 || i >= fs.len() {
        None
    } else if fs[i].name@ == name {
        Some(i)
    } else {
        find_formatter(fs, name, i + 1)
    }
}

/// Checks that an entry refers to a formatter that exists and is enabled,
/// and gives its place. An unknown name fails with `UnknownFormatter`; a
/// disabled formatter with `DisabledFormatter`, carrying it.
pub fn check_formatter(name: &str, locale: &Key, key_path: &KeyPath, formatters: &Vec<Formatter>) -> (r: Result<usize, Error>)
    ensures
        match find_formatter(formatters@, name@, 0) {
            None => r matches Err(e) && e is UnknownFormatter && e->UnknownFormatter_name@ == name@
                && e->UnknownFormatter_locale@ == locale@ && e->UnknownFormatter_key_path@ == key_path@,
            Some(i) => if formatters@[i].enabled {
                r == Ok::<usize, Error>(i as usize)
            } else {
                r matches Err(e) && e is DisabledFormatter && e->DisabledFormatter_formatter.name@
                    == name@ && e->DisabledFormatter_formatter.err_message@
                    == formatters@[i].err_message@ && e->DisabledFormatter_locale@ == locale@
                    && e->DisabledFormatter_key_path@ == key_path@
            },
        },
{
    let mut i: usize = 0;
    while i < formatters.len()
        invariant
            i <= formatters@.len(),
            find_formatter(formatters@, name@, 0) == find_formatter(formatters@, name@, i as int),
        decreases formatters@.len() - i,
    {
        if crate::ranges::text_is(formatters[i].name.as_str(), name) {
            if formatters[i].enabled {
                return Ok(i);
            } else {
                return Err(
                    Error::DisabledFormatter {
                        locale: locale.duplicate(),
                        key_path: key_path.duplicate(),
                        formatter: formatters[i].duplicate(),
                    },
                );
            }
        }
        i = i + 1;
    }
    Err(
        Error::UnknownFormatter {
            name: String::from_str(name),
            locale: locale.duplicate(),
            key_path: key_path.duplicate(),
        },
    )
}

} // verus!
