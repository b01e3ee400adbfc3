use vstd::prelude::*;

use crate::error::Error;

verus! {

/// The one format in which every locale file of a project is written.
#[derive(Debug, Clone, Copy, PartialEq, Eq, Structural)]
pub enum FileFormat {
    Json,
    Json5,
    Yaml,
}

/// Picks the project's file format from the formats enabled: exactly one is
/// required; none fails with `NoFileFormats`, two or more with
/// `MultipleFilesFormats`.
pub fn check_file_formats(json: bool, json5: bool, yaml: bool) -> (r: Result<FileFormat, Error>)
    ensures
        !json && !json5 && !yaml ==> (r matches Err(e) && e is NoFileFormats),
        (json && json5) || (json && yaml) || (json5 && yaml) ==> (r matches Err(e)
            && e is MultipleFilesFormats),
        json && !json5 && !yaml ==> r == Ok::<FileFormat, Error>(FileFormat::Json),
        !json && json5 && !yaml ==> r == Ok::<FileFormat, Error>(FileFormat::Json5),
        !json && !json5 && yaml ==> r == Ok::<FileFormat, Error>(FileFormat::Yaml),
{
    let count: u8 = (if json { 1u8 } else { 0u8 }) + (if json5 { 1u8 } else { 0u8 }) + (if yaml {
        1u8
    } else {
        0u8
    });
    if count == 0 {
        Err(Error::NoFileFormats)
    } else if count > 1 {
        Err(Error::MultipleFilesFormats)
    } else if json {
        Ok(FileFormat::Json)
    } else if json5 {
        Ok(FileFormat::Json5)
    } else {
        Ok(FileFormat::Yaml)
    }
}

/// `s` occurs twice or more in `names`.
pub open spec fn is_repeated(names: Seq<String>, s: Seq<char>) -> bool {
    repeated_before(names, names.len() as int, s)
}

/// `s` occurs twice or more in `names[0..n]`.
pub open spec fn repeated_before(names: Seq<String>, n: int, s: Seq<char>) -> bool {
    exists|i: int, j: int| 0 <= i < j < n && names[i]@ == s && names[j]@ == s
}

/// `dups` holds each repeated name of `names` once, and nothing else.
pub open spec fn lists_repeated(dups: Seq<String>, names: Seq<String>) -> bool {
    &&& forall|s: Seq<char>|
        #[trigger] is_repeated(names, s) <==> exists|k: int| 0 <= k < dups.len() && (#[trigger] dups[k])@ == s
    &&& forall|a: int, b: int| 0 <= a < b < dups.len() ==> dups[a]@ != dups[b]@
}

/// Whether some name in `names[0..n]` has the text `s`.
fn occurs_before(names: &Vec<String>, n: usize, s: &String) -> (r: bool)
    requires
        n <= names@.len(),
    ensures
        r == exists|i: int| 0 <= i < n && (#[trigger] names@[i])@ == s@,
{
    let mut i: usize = 0;
    while i < n
        invariant
            i <= n <= names@.len(),
            forall|k: int| 0 <= k < i ==> (#[trigger] names@[k])@ != s@,
        decreases n - i,
    {
        if names[i] == *s {
            return true;
        }
        i = i + 1;
    }
    false
}

/// The names that occur more than once, each once, in the order in which
/// they are first repeated.
pub fn find_duplicates(names: &Vec<String>) -> (r: Vec<String>)
    ensures
        lists_repeated(r@, names@),
{
    let mut out: Vec<String> = Vec::new();
    let mut j: usize = 0;
    while j < names.len()
        invariant
            j <= names@.len(),
            forall|s: Seq<char>|
                #[trigger] repeated_before(names@, j as int, s) <==> exists|k: int|
                    0 <= k < out@.len() && (#[trigger] out@[k])@ == s,
            forall|a: int, b: int| 0 <= a < b < out@.len() ==> out@[a]@ != out@[b]@,
        decreases names@.len() - j,
    {
        let s = &names[j];
        let seen = occurs_before(names, j, s);
        let listed = occurs_before(&out, out.len(), s);
        let ghost before = out@;
        if seen && !listed {
            out.push(s.clone());
        }
        proof {
            assert forall|t: Seq<char>|
                #[trigger] repeated_before(names@, j + 1, t) <==> exists|k: int|
                    0 <= k < out@.len() && (#[trigger] out@[k])@ == t by {
                if repeated_before(names@, j + 1, t) {
                    let (a, b) = choose|a: int, b: int| 0 <= a < b < j + 1 && names@[a]@ == t && names@[b]@ == t;
                    if b < j {
                        let k = choose|k: int| 0 <= k < before.len() && (#[trigger] before[k])@ == t;
                        assert(repeated_before(names@, j as int, t));
                        assert(out@[k] == before[k]);
                    } else if seen && !listed {
                        assert(out@[out@.len() - 1]@ == t);
                    } else {
                        assert(names@[a]@ == s@);
                        assert(exists|k: int| 0 <= k < before.len() && (#[trigger] before[k])@ == t);
                        let k = choose|k: int| 0 <= k < before.len() && (#[trigger] before[k])@ == t;
                        assert(out@[k] == before[k]);
                    }
                }
                if exists|k: int| 0 <= k < out@.len() && (#[trigger] out@[k])@ == t {
                    let k = choose|k: int| 0 <= k < out@.len() && (#[trigger] out@[k])@ == t;
                    if k < before.len() {
                        assert(before[k]@ == t);
                        assert(repeated_before(names@, j as int, t));
                        let (a, b) = choose|a: int, b: int| 0 <= a < b < j && names@[a]@ == t && names@[b]@ == t;
                        assert(0 <= a < b < j + 1 && names@[a]@ == t && names@[b]@ == t);
                    } else {
                        let a = choose|a: int| 0 <= a < j && (#[trigger] names@[a])@ == s@;
                        assert(0 <= a < j as int && names@[a]@ == t && names@[j as int]@ == t);
                        assert(repeated_before(names@, j + 1, t));
                    }
                }
            }
        }
        j = j + 1;
    }
    out
}

/// What the configuration lists and enables.
#[derive(Debug, Clone)]
pub struct Config {
    pub locales: Vec<String>,
    pub namespaces: Vec<String>,
    pub json: bool,
    pub json5: bool,
    pub yaml: bool,
    pub translations_uri: Option<String>,
    pub dynamic_load_csr: bool,
}

/// Checks the configuration once, before any key is looked at, and stops at
/// the first problem: repeated locales, then repeated namespaces, then the
/// file formats, then a missing translations location where client-side
/// dynamic loading needs one.
pub fn check_config(cfg: &Config) -> (r: Result<FileFormat, Error>)
    ensures
        (exists|s: Seq<char>| is_repeated(cfg.locales@, s)) ==> (r matches Err(e)
            && e is DuplicateLocalesInConfig && lists_repeated(
            e->DuplicateLocalesInConfig_0@,
            cfg.locales@,
        )),
        (!exists|s: Seq<char>| is_repeated(cfg.locales@, s)) && (exists|s: Seq<char>|
            is_repeated(cfg.namespaces@, s)) ==> (r matches Err(e)
            && e is DuplicateNamespacesInConfig && lists_repeated(
            e->DuplicateNamespacesInConfig_0@,
            cfg.namespaces@,
        )),
        (!exists|s: Seq<char>| is_repeated(cfg.locales@, s)) && (!exists|s: Seq<char>|
            is_repeated(cfg.namespaces@, s)) ==> match check_file_formats_spec(cfg.json, cfg.json5, cfg.yaml) {
            None => if !cfg.json && !cfg.json5 && !cfg.yaml {
                (r matches Err(e) && e is NoFileFormats)
            } else {
                (r matches Err(e) && e is MultipleFilesFormats)
            },
            Some(f) => if cfg.dynamic_load_csr && cfg.translations_uri is None {
                (r matches Err(e) && e is MissingTranslationsURI)
            } else {
                r == Ok::<FileFormat, Error>(f)
            },
        },
{
    let dl = find_duplicates(&cfg.locales);
    if dl.len() > 0 {
        assert(is_repeated(cfg.locales@, dl@[0]@));
        return Err(Error::DuplicateLocalesInConfig(dl));
    }
    let dn = find_duplicates(&cfg.namespaces);
    assert(!exists|s: Seq<char>| is_repeated(cfg.locales@, s));
    if dn.len() > 0 {
        assert(is_repeated(cfg.namespaces@, dn@[0]@));
        return Err(Error::DuplicateNamespacesInConfig(dn));
    }
    assert(!exists|s: Seq<char>| is_repeated(cfg.namespaces@, s));
    let f = match check_file_formats(cfg.json, cfg.json5, cfg.yaml) {
        Ok(f) => f,
        Err(e) => {
            return Err(e);
        },
    };
    if cfg.dynamic_load_csr && cfg.translations_uri.is_none() {
        return Err(Error::MissingTranslationsURI);
    }
    Ok(f)
}

/// The format that exactly one enabled flag names.
pub open spec fn check_file_formats_spec(json: bool, json5: bool, yaml: bool) -> Option<FileFormat> {
    if json && !json5 && !yaml {
        Some(FileFormat::Json)
    } else if !json && json5 && !yaml {
        Some(FileFormat::Json5)
    } else if !json && !json5 && yaml {
        Some(FileFormat::Yaml)
    } else {
        None
    }
}

} // verus!
