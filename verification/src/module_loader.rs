use vstd::prelude::*;

use deno_ast::{EmitOptions, MediaType, ModuleSpecifier, ParseParams};
use std::path::Path;

verus! {

/// The kinds of source file that a module's path can name.
#[derive(Clone, Copy, PartialEq, Eq, Debug)]
pub enum MediaKind {
    JavaScript,
    Jsx,
    Mjs,
    Cjs,
    TypeScript,
    Mts,
    Cts,
    Dts,
    Dmts,
    Dcts,
    Tsx,
    Css,
    Json,
    Jsonc,
    Json5,
    Html,
    Markdown,
    Sql,
    Wasm,
    SourceMap,
    Unknown,
}

/// The media type that `deno_ast::MediaType::from_path` gives a path.
pub uninterp spec fn media_type_of_path(path: Seq<char>) -> MediaKind;

/// The extension that `std::path::Path::extension` finds in a path.
pub uninterp spec fn extension_of_path(path: Seq<char>) -> Option<Seq<char>>;

/// The JavaScript text and source map that `deno_ast::parse_module` (with
/// the module URL `specifier` and the media type of `path`) followed by
/// `ParsedSource::transpile` (default options) make of `text`, or the
/// message of the error that either step (or reading `specifier` as a URL)
/// reports.
pub uninterp spec fn transpiled(specifier: Seq<char>, path: Seq<char>, text: Seq<char>) -> Result<
    (Seq<char>, Option<Seq<char>>),
    Seq<char>,
>;

/// Whether `url::Url::parse` (as `deno_ast::ModuleSpecifier::parse`)
/// accepts the text.
pub uninterp spec fn is_url(text: Seq<char>) -> bool;

/// The file path, as text, that `url::Url::to_file_path` gives the module
/// URL `specifier` (read with `url::Url::parse`); `None` when the text is
/// not a URL, the URL names no local file, or the path is not valid UTF-8.
pub uninterp spec fn file_path_of(specifier: Seq<char>) -> Option<Seq<char>>;

/// Calls `deno_ast::ModuleSpecifier::parse` (`url::Url::parse`) on the
/// module URL and `url::Url::to_file_path` on the result, and gives the path
/// as text. Claimed: the result is `file_path_of` of the URL.
#[verifier::external_body]
fn url_file_path(specifier: &str) -> (r: Option<String>)
    ensures
        (match r {
            Some(p) => Some(p@),
            None => None::<Seq<char>>,
        }) == file_path_of(specifier@),
{
    let path = ModuleSpecifier::parse(specifier).ok()?.to_file_path().ok()?;
    path.to_str().map(|p| p.to_owned())
}

/// Calls `deno_ast::MediaType::from_path` on `path`, one variant for one.
/// Claimed: the result is `media_type_of_path` of the text.
#[verifier::external_body]
fn media_type_of(path: &str) -> (m: MediaKind)
    ensures
        m == media_type_of_path(path@),
{
    match MediaType::from_path(Path::new(path)) {
        MediaType::JavaScript => MediaKind::JavaScript, MediaType::Jsx => MediaKind::Jsx, MediaType::Mjs => MediaKind::Mjs,
        MediaType::Cjs => MediaKind::Cjs, MediaType::TypeScript => MediaKind::TypeScript, MediaType::Mts => MediaKind::Mts,
        MediaType::Cts => MediaKind::Cts, MediaType::Dts => MediaKind::Dts, MediaType::Dmts => MediaKind::Dmts,
        MediaType::Dcts => MediaKind::Dcts, MediaType::Tsx => MediaKind::Tsx, MediaType::Css => MediaKind::Css,
        MediaType::Json => MediaKind::Json, MediaType::Jsonc => MediaKind::Jsonc, MediaType::Json5 => MediaKind::Json5,
        MediaType::Html => MediaKind::Html, MediaType::Markdown => MediaKind::Markdown, MediaType::Sql => MediaKind::Sql,
        MediaType::Wasm => MediaKind::Wasm, MediaType::SourceMap => MediaKind::SourceMap, MediaType::Unknown => MediaKind::Unknown,
    }
}

/// Calls `std::path::Path::extension` on `path` (as text). Claimed: the
/// result is `extension_of_path` of the text.
#[verifier::external_body]
fn path_extension(path: &str) -> (r: Option<String>)
    ensures
        extension_of_path(path@) == (match r {
            Some(e) => Some(e@),
            None => None::<Seq<char>>,
        }),
{
    Path::new(path).extension().and_then(|e| e.to_str()).map(|e| e.to_owned())
}

/// Calls `deno_ast::ModuleSpecifier::parse` (`url::Url::parse`) on the
/// text. Claimed: the result is `is_url` of the text.
#[verifier::external_body]
fn parses_as_url(text: &str) -> (r: bool)
    ensures
        r == is_url(text@),
{
    ModuleSpecifier::parse(text).is_ok()
}

/// Calls `deno_ast::parse_module` on `text` (module URL `specifier`, media
/// type from `path`, no tokens, no scope analysis) and `transpile` with
/// default options on the result; errors become their messages. Claimed:
/// the result is `transpiled` of the three texts.
#[verifier::external_body]
fn transpile_text(specifier: &str, path: &str, text: &str) -> (r: Result<(String, Option<String>), String>)
    ensures
        transpiled(specifier@, path@, text@) == (match r {
            Ok((code, map)) => Ok((code@, match map { Some(m) => Some(m@), None => None::<Seq<char>> })),
            Err(e) => Err::<(Seq<char>, Option<Seq<char>>), Seq<char>>(e@),
        }),
{
    let params = ParseParams { specifier: ModuleSpecifier::parse(specifier).map_err(|e| e.to_string())?, text: text.into(),
        media_type: MediaType::from_path(Path::new(path)), capture_tokens: false, scope_analysis: false, maybe_syntax: None };
    let parsed = deno_ast::parse_module(params).map_err(|e| e.to_string())?;
    let emitted = parsed.transpile(&Default::default(), &Default::default(), &EmitOptions::default()).map_err(|e| e.to_string())?;
    let source = emitted.into_source();
    Ok((source.text, source.source_map))
}

/// How the engine loads a module: as JavaScript or as JSON.
#[derive(Clone, Copy, PartialEq, Eq, Debug)]
pub enum ModuleKind {
    JavaScript,
    Json,
}

/// What loading a module takes: the kind it is loaded as, and whether its
/// text is transpiled first.
#[derive(Clone, Copy, PartialEq, Eq, Debug)]
pub struct ModulePlan {
    pub module_type: ModuleKind,
    pub transpile: bool,
}

/// The plan for a media type: JavaScript as it is; JSX and every
/// TypeScript flavour transpiled to JavaScript; JSON as JSON; nothing else.
pub open spec fn plan_for(media: MediaKind) -> Option<ModulePlan> {
    match media {
        MediaKind::JavaScript | MediaKind::Mjs | MediaKind::Cjs => Some(
            ModulePlan { module_type: ModuleKind::JavaScript, transpile: false },
        ),
        MediaKind::Jsx | MediaKind::TypeScript | MediaKind::Mts | MediaKind::Cts | MediaKind::Dts | MediaKind::Dmts
        | MediaKind::Dcts | MediaKind::Tsx => Some(ModulePlan { module_type: ModuleKind::JavaScript, transpile: true }),
        MediaKind::Json => Some(ModulePlan { module_type: ModuleKind::Json, transpile: false }),
        _ => None,
    }
}

/// What loading the file at `path` is planned as: the plan for its media
/// type, or the refusal that names its extension or its lack of one.
pub open spec fn plan_outcome(path: Seq<char>, r: Result<ModulePlan, ModuleLoadError>) -> bool {
    match plan_for(media_type_of_path(path)) {
        Some(p) => r == Ok::<ModulePlan, ModuleLoadError>(p),
        None => match extension_of_path(path) {
            Some(e) => r matches Err(ModuleLoadError::UnknownExtension { extension, path: q }) && extension@ == e
                && q@ == path,
            None => r matches Err(ModuleLoadError::MissingExtension { path: q }) && q@ == path,
        },
    }
}

/// Whether a media type is TypeScript of any flavour (plain, module,
/// CommonJS, declarations, TSX).
pub open spec fn is_typescript(media: MediaKind) -> bool {
    media == MediaKind::TypeScript || media == MediaKind::Mts || media == MediaKind::Cts || media == MediaKind::Dts
        || media == MediaKind::Dmts || media == MediaKind::Dcts || media == MediaKind::Tsx
}

/// Whether a media type is JavaScript without JSX (plain, module or
/// CommonJS).
pub open spec fn is_plain_javascript(media: MediaKind) -> bool {
    media == MediaKind::JavaScript || media == MediaKind::Mjs || media == MediaKind::Cjs
}

/// Every module the engine loads runs as JavaScript, except JSON; it is
/// transpiled exactly when it is TypeScript of some flavour or JSX, so
/// plain JavaScript and JSON are handed over as they are; every other media
/// type is refused.
pub proof fn law_transpiled_exactly_typescript_and_jsx(media: MediaKind)
    ensures
        plan_for(media) matches Some(p) ==> (p.transpile <==> (is_typescript(media) || media == MediaKind::Jsx)),
        plan_for(media) matches Some(p) ==> (p.module_type == ModuleKind::Json <==> media == MediaKind::Json),
        is_typescript(media) || media == MediaKind::Jsx ==> plan_for(media) == Some(
            ModulePlan { module_type: ModuleKind::JavaScript, transpile: true },
        ),
        is_plain_javascript(media) ==> plan_for(media) == Some(
            ModulePlan { module_type: ModuleKind::JavaScript, transpile: false },
        ),
        plan_for(media) is Some <==> (is_typescript(media) || media == MediaKind::Jsx || is_plain_javascript(media)
            || media == MediaKind::Json),
{
}

/// Why a module could not be loaded.
pub enum ModuleLoadError {
    /// The module URL names no file.
    UnresolvedPath { specifier: String },
    /// The file's extension is not one the engine loads.
    UnknownExtension { extension: String, path: String },
    /// The file has no extension.
    MissingExtension { path: String },
    /// The file could not be read.
    NotFound { path: String },
    /// Parsing or transpiling failed.
    Transpile(String),
}

/// `"` + `text` + `"`.
pub open spec fn quoted(text: Seq<char>) -> Seq<char> {
    "\""@ + text + "\""@
}

impl ModuleLoadError {
    /// The text the error is reported with.
    pub fn message(&self) -> (m: String)
        ensures
            m@ == match self {
                ModuleLoadError::UnresolvedPath { specifier } => "Could not resolve file path for import "@ + quoted(specifier@),
                ModuleLoadError::UnknownExtension { extension, path } => "Unknown file extension \"."@ + extension@
                    + "\" for import "@ + quoted(path@),
                ModuleLoadError::MissingExtension { path } => "Missing file extension for import "@ + quoted(path@),
                ModuleLoadError::NotFound { path } => "No such file found for import "@ + quoted(path@),
                ModuleLoadError::Transpile(e) => e@,
            },
    {
        match self {
            ModuleLoadError::UnresolvedPath { specifier } => {
                let mut m = "Could not resolve file path for import \"".to_owned();
                m.append(specifier.as_str());
                m.append("\"");
                proof {
                    assert(m@ =~= "Could not resolve file path for import "@ + quoted(specifier@)) by {
                        reveal_strlit("Could not resolve file path for import \"");
                        reveal_strlit("Could not resolve file path for import ");
                        reveal_strlit("\"");
                    }
                }
                m
            },
            ModuleLoadError::UnknownExtension { extension, path } => {
                let mut m = "Unknown file extension \".".to_owned();
                m.append(extension.as_str());
                m.append("\" for import \"");
                m.append(path.as_str());
                m.append("\"");
                proof {
                    assert(m@ =~= "Unknown file extension \"."@ + extension@ + "\" for import "@ + quoted(path@)) by {
                        reveal_strlit("\" for import \"");
                        reveal_strlit("\" for import ");
                        reveal_strlit("\"");
                    }
                }
                m
            },
            ModuleLoadError::MissingExtension { path } => {
                let mut m = "Missing file extension for import \"".to_owned();
                m.append(path.as_str());
                m.append("\"");
                proof {
                    assert(m@ =~= "Missing file extension for import "@ + quoted(path@)) by {
                        reveal_strlit("Missing file extension for import \"");
                        reveal_strlit("Missing file extension for import ");
                        reveal_strlit("\"");
                    }
                }
                m
            },
            ModuleLoadError::NotFound { path } => {
                let mut m = "No such file found for import \"".to_owned();
                m.append(path.as_str());
                m.append("\"");
                proof {
                    assert(m@ =~= "No such file found for import "@ + quoted(path@)) by {
                        reveal_strlit("No such file found for import \"");
                        reveal_strlit("No such file found for import ");
                        reveal_strlit("\"");
                    }
                }
                m
            },
            ModuleLoadError::Transpile(e) => e.clone(),
        }
    }
}

/// The module loader of sketch runtimes: it loads JavaScript, JSON, and
/// TypeScript or JSX transpiled to JavaScript.
pub struct TsModuleLoader;

impl TsModuleLoader {
    /// The plan for a media type.
    pub fn plan_for_media(media: MediaKind) -> (r: Option<ModulePlan>)
        ensures
            r == plan_for(media),
    {
        match media {
            MediaKind::JavaScript | MediaKind::Mjs | MediaKind::Cjs => Some(
                ModulePlan { module_type: ModuleKind::JavaScript, transpile: false },
            ),
            MediaKind::Jsx | MediaKind::TypeScript | MediaKind::Mts | MediaKind::Cts | MediaKind::Dts
            | MediaKind::Dmts | MediaKind::Dcts | MediaKind::Tsx => Some(
                ModulePlan { module_type: ModuleKind::JavaScript, transpile: true },
            ),
            MediaKind::Json => Some(ModulePlan { module_type: ModuleKind::Json, transpile: false }),
            _ => None,
        }
    }

    /// How to load the file at `path`, from its media type; a file of
    /// another type is refused, naming its extension or its lack of one.
    pub fn plan(path: &str) -> (r: Result<ModulePlan, ModuleLoadError>)
        ensures
            plan_outcome(path@, r),
    {
        match Self::plan_for_media(media_type_of(path)) {
            Some(p) => Ok(p),
            None => match path_extension(path) {
                Some(extension) => Err(ModuleLoadError::UnknownExtension { extension, path: path.to_owned() }),
                None => Err(ModuleLoadError::MissingExtension { path: path.to_owned() }),
            },
        }
    }

    /// The file that the module URL `specifier` names, and how to load it:
    /// a URL that names no file is refused, and so is a file of a type the
    /// engine does not load.
    pub fn resolve(specifier: &str) -> (r: Result<(String, ModulePlan), ModuleLoadError>)
        ensures
            file_path_of(specifier@) is None ==> (r matches Err(ModuleLoadError::UnresolvedPath { specifier: s })
                && s@ == specifier@),
            file_path_of(specifier@) matches Some(p) ==> match r {
                Ok((q, plan)) => q@ == p && plan_outcome(p, Ok(plan)),
                Err(e) => plan_outcome(p, Err(e)),
            },
    {
        match url_file_path(specifier) {
            None => Err(ModuleLoadError::UnresolvedPath { specifier: specifier.to_owned() }),
            Some(path) => match Self::plan(path.as_str()) {
                Ok(plan) => Ok((path, plan)),
                Err(e) => Err(e),
            },
        }
    }

    /// The code of a module whose file held `code`: the text itself, or,
    /// when the plan says so, the JavaScript it transpiles to.
    pub fn finish(specifier: &str, path: &str, plan: ModulePlan, code: String) -> (r: Result<String, ModuleLoadError>)
        ensures
            !plan.transpile ==> (r matches Ok(c) && c@ == code@),
            plan.transpile ==> match transpiled(specifier@, path@, code@) {
                Ok((text, _)) => r matches Ok(c) && c@ == text,
                Err(m) => r matches Err(ModuleLoadError::Transpile(e)) && e@ == m,
            },
    {
        if !plan.transpile {
            return Ok(code);
        }
        match transpile_text(specifier, path, code.as_str()) {
            Ok((text, _)) => Ok(text),
            Err(m) => Err(ModuleLoadError::Transpile(m)),
        }
    }
}

/// Whether a source can go into a runtime snapshot: its name names
/// JavaScript (plain or module), or names TypeScript and is a URL (the URL
/// the transpiler is given).
pub open spec fn snapshot_source_supported(specifier: Seq<char>) -> bool {
    ||| media_type_of_path(specifier) == MediaKind::JavaScript
    ||| media_type_of_path(specifier) == MediaKind::Mjs
    ||| (media_type_of_path(specifier) == MediaKind::TypeScript && is_url(specifier))
}

/// What the snapshot of a source named `specifier` holds: JavaScript as it
/// is, with no source map; TypeScript as the JavaScript and source map it
/// transpiles to, or the transpiler's error.
pub open spec fn snapshot_outcome(
    specifier: Seq<char>,
    source: Seq<char>,
    r: Result<(String, Option<String>), ModuleLoadError>,
) -> bool {
    if media_type_of_path(specifier) != MediaKind::TypeScript {
        r matches Ok((c, None)) && c@ == source
    } else {
        match transpiled(specifier, specifier, source) {
            Ok((text, map)) => r matches Ok((c, m)) && c@ == text && (match m {
                Some(s) => Some(s@),
                None => None::<Seq<char>>,
            }) == map,
            Err(e) => r matches Err(ModuleLoadError::Transpile(m)) && m@ == e,
        }
    }
}

/// The code and source map that go into a runtime snapshot for a source
/// named `specifier`: JavaScript as it is (no source map), TypeScript
/// transpiled.
pub fn maybe_transpile_source(specifier: &str, source: String) -> (r: Result<(String, Option<String>), ModuleLoadError>)
    requires
        snapshot_source_supported(specifier@),
    ensures
        snapshot_outcome(specifier@, source@, r),
{
    match media_type_of(specifier) {
        MediaKind::TypeScript => {},
        _ => {
            return Ok((source, None));
        },
    }
    match transpile_text(specifier, specifier, source.as_str()) {
        Ok(out) => Ok(out),
        Err(m) => Err(ModuleLoadError::Transpile(m)),
    }
}

/// `maybe_transpile_source` for any source: `None` when the source cannot
/// go into a snapshot (its name names neither TypeScript nor JavaScript, or
/// names TypeScript and is not a URL).
pub fn try_transpile_source(specifier: &str, source: String) -> (r: Option<Result<(String, Option<String>), ModuleLoadError>>)
    ensures
        r is Some <==> snapshot_source_supported(specifier@),
        r matches Some(x) ==> snapshot_outcome(specifier@, source@, x),
{
    match media_type_of(specifier) {
        MediaKind::JavaScript | MediaKind::Mjs => Some(maybe_transpile_source(specifier, source)),
        MediaKind::TypeScript => {
            if parses_as_url(specifier) {
                Some(maybe_transpile_source(specifier, source))
            } else {
                None
            }
        },
        _ => None,
    }
}

} // verus!
