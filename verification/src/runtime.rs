//! Loading the modules of a script for the embedded JavaScript runtime:
//! where a module's code comes from, and how it is handed to the runtime.
use vstd::prelude::*;

verus! {

/// Loads TypeScript and JavaScript modules for the runtime.
pub struct TsModuleLoader;

/// The kind of a module's source, as told by its specifier.
#[derive(Clone, Copy, Debug, PartialEq, Eq, Structural)]
pub enum MediaType {
    JavaScript,
    Jsx,
    Mjs,
    Cjs,
    TypeScript,
    Mts,
    Cts,
    Dts,
    Dmts,
    Dcts,
    Tsx,
    Json,
    Wasm,
    TsBuildInfo,
    SourceMap,
    Unknown,
}

/// How the runtime evaluates a module.
#[derive(Clone, Copy, Debug, PartialEq, Eq, Structural)]
pub enum ModuleType {
    JavaScript,
    Json,
}

/// Where a module's code is read from.
#[derive(Clone, Copy, Debug, PartialEq, Eq, Structural)]
pub enum CodeSource {
    /// Fetched over HTTP(S).
    Remote,
    /// Read from a local file.
    File,
}

/// Why a module cannot be loaded.
#[derive(Debug)]
pub enum LoadError {
    /// The specifier's scheme is neither `http`, `https` nor `file`.
    UnsupportedSchema(String),
}

/// Where the code of a module with the given scheme comes from.
pub open spec fn code_source_spec(scheme: Seq<char>) -> Option<CodeSource> {
    if scheme == "http"@ || scheme == "https"@ {
        Some(CodeSource::Remote)
    } else if scheme == "file"@ {
        Some(CodeSource::File)
    } else {
        None
    }
}

/// How a module of the given media type is evaluated, and whether it has to
/// be transpiled first; `None` for media types the runtime cannot load.
pub open spec fn module_kind_spec(media_type: MediaType) -> Option<(ModuleType, bool)> {
    match media_type {
        MediaType::JavaScript | MediaType::Mjs | MediaType::Cjs => Some(
            (ModuleType::JavaScript, false),
        ),
        MediaType::Jsx => Some((ModuleType::JavaScript, true)),
        MediaType::TypeScript | MediaType::Mts | MediaType::Cts | MediaType::Dts
        | MediaType::Dmts | MediaType::Dcts | MediaType::Tsx => Some(
            (ModuleType::JavaScript, true),
        ),
        MediaType::Json => Some((ModuleType::Json, false)),
        _ => None,
    }
}

fn str_eq(a: &str, b: &str) -> (r: bool)
    ensures
        r == (a@ == b@),
{
    crate::text::chars_eq(&crate::text::chars_of(a), &crate::text::chars_of(b))
}

impl TsModuleLoader {
    /// Where the code of a module whose specifier has the scheme `scheme`
    /// is read from.
    pub fn code_source(&self, scheme: &str) -> (r: Result<CodeSource, LoadError>)
        ensures
            match code_source_spec(scheme@) {
                Some(c) => r matches Ok(d) && d == c,
                None => r matches Err(LoadError::UnsupportedSchema(s)) && s@ == scheme@,
            },
    {
        if str_eq(scheme, "http") || str_eq(scheme, "https") {
            Ok(CodeSource::Remote)
        } else if str_eq(scheme, "file") {
            Ok(CodeSource::File)
        } else {
            Err(LoadError::UnsupportedSchema(String::from_str(scheme)))
        }
    }

    /// How a module of type `media_type` is evaluated and whether it is
    /// transpiled first.
    pub fn module_kind(&self, media_type: MediaType) -> (r: Option<(ModuleType, bool)>)
        ensures
            r == module_kind_spec(media_type),
    {
        match media_type {
            MediaType::JavaScript | MediaType::Mjs | MediaType::Cjs => Some(
                (ModuleType::JavaScript, false),
            ),
            MediaType::Jsx => Some((ModuleType::JavaScript, true)),
            MediaType::TypeScript | MediaType::Mts | MediaType::Cts | MediaType::Dts
            | MediaType::Dmts | MediaType::Dcts | MediaType::Tsx => Some(
                (ModuleType::JavaScript, true),
            ),
            MediaType::Json => Some((ModuleType::Json, false)),
            _ => None,
        }
    }
}

} // verus!
