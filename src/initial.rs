use vstd::prelude::*;

verus! {

/// The context in which the first locale of a page is chosen.
#[derive(Debug, Clone, Copy, PartialEq, Eq, Structural)]
pub enum RenderMode {
    /// Rendered on the server.
    Ssr,
    /// Hydrated in the browser after server rendering.
    Hydrate,
    /// Rendered in the browser alone.
    Csr,
}

/// The value a derived signal takes: `start` on its first evaluation, then
/// whatever `then` holds.
pub fn signal_once_then<T>(start: T, then: T, first_run: bool) -> (r: T)
    ensures
        r == (if first_run { start } else { then }),
{
    if first_run {
        start
    } else {
        then
    }
}

/// As `signal_once_then` when there is a start value; otherwise the signal
/// follows `then` from the start.
pub fn signal_maybe_once_then<T>(start: Option<T>, then: T, first_run: bool) -> (r: T)
    ensures
        r == (match start {
            Some(s) => if first_run { s } else { then },
            None => then,
        }),
{
    match start {
        Some(s) => signal_once_then(s, then, first_run),
        None => then,
    }
}

/// The locale a page starts with, before the accepted locales take over: on
/// the server and in the browser alone, the cookie's; when hydrating, the one
/// the server wrote into the page's `lang` attribute, else the cookie's.
pub fn base_locale<L>(mode: RenderMode, cookie: Option<L>, page_lang: Option<L>) -> (r: Option<L>)
    ensures
        r == (match mode {
            RenderMode::Hydrate => if page_lang is Some { page_lang } else { cookie },
            _ => cookie,
        }),
{
    match mode {
        RenderMode::Hydrate => match page_lang {
            Some(l) => Some(l),
            None => cookie,
        },
        _ => cookie,
    }
}

/// The locale in effect at one evaluation: the base locale on the first
/// evaluation where there is one, and the best accepted locale otherwise.
pub fn fetch_locale<L>(
    mode: RenderMode,
    cookie: Option<L>,
    page_lang: Option<L>,
    accepted: L,
    first_run: bool,
) -> (r: L)
    ensures
        r == (match base_locale_spec(mode, cookie, page_lang) {
            Some(b) => if first_run { b } else { accepted },
            None => accepted,
        }),
{
    let base = base_locale(mode, cookie, page_lang);
    signal_maybe_once_then(base, accepted, first_run)
}

/// The base locale, as `base_locale` chooses it.
pub open spec fn base_locale_spec<L>(mode: RenderMode, cookie: Option<L>, page_lang: Option<L>) -> Option<L> {
    match mode {
        RenderMode::Hydrate => if page_lang is Some { page_lang } else { cookie },
        _ => cookie,
    }
}

} // verus!
