//! The checks a spec document passes before it is compiled: it parses, it
//! declares OpenAPI 3.0 or 3.1, and the parser crate of its family accepts it.
use vstd::prelude::*;
use crate::loader::{self, OpenApiFamily, SpecFormat};
use crate::text;
use crate::urls;

verus! {

/// Why a document was refused.
#[derive(Debug, Clone)]
pub enum ParseError {
    /// What was wrong, as text.
    Parse(String),
}

impl ParseError {
    /// Exit code of a refused document: 1.
    pub fn exit_code(&self) -> (r: i32)
        ensures
            r == 1,
    {
        1
    }

    /// The text the refusal is reported with.
    pub fn message(&self) -> (r: String)
        ensures
            r@ == "failed to parse OpenAPI document: "@ + match self {
                ParseError::Parse(m) => m@,
            },
    {
        match self {
            ParseError::Parse(m) => text::cat("failed to parse OpenAPI document: ", m.as_str()),
        }
    }
}

/// The messages for a document that is not OpenAPI 3.0 or 3.1: a Swagger
/// document names its version, so does an other OpenAPI version; a missing
/// version says so.
pub open spec fn require_openapi_3_spec(spec_version: Seq<char>, swagger: Option<Seq<char>>) -> Result<(), Seq<char>> {
    if text::has_prefix(spec_version, "3.0"@) || text::has_prefix(spec_version, "3.1"@) {
        Ok(())
    } else if swagger is Some {
        Err("Swagger "@ + swagger->0 + " is not supported; use an OpenAPI 3.0 or 3.1 document"@)
    } else if spec_version.len() == 0 {
        Err("missing openapi version field; use an OpenAPI 3.0 or 3.1 document"@)
    } else {
        Err("OpenAPI "@ + spec_version + " is not supported; use an OpenAPI 3.0 or 3.1 document"@)
    }
}

/// Only OpenAPI 3.0 and 3.1 documents are compiled (`require_openapi_3_spec`).
pub fn require_openapi_3(spec_version: &str, swagger: Option<&str>) -> (r: Result<(), String>)
    ensures
        match r {
            Ok(()) => require_openapi_3_spec(spec_version@, crate::names::opt_view(swagger)) is Ok,
            Err(m) => require_openapi_3_spec(spec_version@, crate::names::opt_view(swagger))
                == Err::<(), Seq<char>>(m@),
        },
{
    let v = text::chars_of(spec_version);
    let p30 = text::chars_of("3.0");
    let p31 = text::chars_of("3.1");
    if text::vec_has_prefix(&v, &p30) || text::vec_has_prefix(&v, &p31) {
        return Ok(());
    }
    match swagger {
        Some(sw) => {
            return Err(
                text::cat3("Swagger ", sw, " is not supported; use an OpenAPI 3.0 or 3.1 document"),
            );
        },
        None => {},
    }
    if v.len() == 0 {
        return Err("missing openapi version field; use an OpenAPI 3.0 or 3.1 document".to_owned());
    }
    Err(text::cat3("OpenAPI ", spec_version, " is not supported; use an OpenAPI 3.0 or 3.1 document"))
}

/// The text of the error `serde_json::from_slice` gives when the bytes do
/// not parse as a `serde_json::Value`; `None` when they do.
pub uninterp spec fn json_syntax_error(bytes: Seq<u8>) -> Option<Seq<char>>;

/// The text of the error `serde_yaml::from_slice` gives when the bytes do
/// not parse as a `serde_json::Value`; `None` when they do.
pub uninterp spec fn yaml_syntax_error(bytes: Seq<u8>) -> Option<Seq<char>>;

/// `serde_json::from_slice` into a `serde_json::Value`, then
/// `serde_json::to_string`; an error's text otherwise.
pub uninterp spec fn json_reserialized(bytes: Seq<u8>) -> Result<Seq<char>, Seq<char>>;

/// `serde_yaml::from_slice` into a `serde_json::Value`, then
/// `serde_json::to_string`; an error's text otherwise.
pub uninterp spec fn yaml_reserialized(bytes: Seq<u8>) -> Result<Seq<char>, Seq<char>>;

/// The syntax check for the document's format: JSON with `serde_json`, YAML
/// with `serde_yaml`.
pub open spec fn syntax_error(bytes: Seq<u8>, is_json: bool) -> Option<Seq<char>> {
    if is_json {
        json_syntax_error(bytes)
    } else {
        yaml_syntax_error(bytes)
    }
}

/// The document re-serialized as JSON text, read with the parser for its
/// format.
pub open spec fn reserialized(bytes: Seq<u8>, is_json: bool) -> Result<Seq<char>, Seq<char>> {
    if is_json {
        json_reserialized(bytes)
    } else {
        yaml_reserialized(bytes)
    }
}

/// `String::from_utf8_lossy` of the bytes.
pub uninterp spec fn lossy_text(bytes: Seq<u8>) -> Seq<char>;

/// The text of the error of `serde_json::from_str::<openapiv3::OpenAPI>`;
/// `None` when it reads the document.
pub uninterp spec fn openapiv3_json_error(text: Seq<char>) -> Option<Seq<char>>;

/// The text of the error of `serde_yaml::from_slice::<openapiv3::OpenAPI>`;
/// `None` when it reads the document.
pub uninterp spec fn openapiv3_yaml_error(bytes: Seq<u8>) -> Option<Seq<char>>;

/// The text of the error of `oas3::from_json`; `None` when it reads the
/// document.
pub uninterp spec fn oas3_error(json: Seq<char>) -> Option<Seq<char>>;

/// `serde_json::from_slice` into a `serde_json::Value`, then
/// `serde_json::to_string`. Claims only that the result is the one
/// `json_reserialized` names.
#[verifier::external_body]
fn json_reserialize(bytes: &[u8]) -> (r: Result<String, String>)
    ensures
        match r {
            Ok(t) => json_reserialized(bytes@) == Ok::<Seq<char>, Seq<char>>(t@),
            Err(e) => json_reserialized(bytes@) == Err::<Seq<char>, Seq<char>>(e@),
        },
{
    let v: serde_json::Value = serde_json::from_slice(bytes).map_err(|e| e.to_string())?;
    serde_json::to_string(&v).map_err(|e| e.to_string())
}

/// `serde_yaml::from_slice` into a `serde_json::Value`, then
/// `serde_json::to_string`. Claims only that the result is the one
/// `yaml_reserialized` names.
#[verifier::external_body]
fn yaml_reserialize(bytes: &[u8]) -> (r: Result<String, String>)
    ensures
        match r {
            Ok(t) => yaml_reserialized(bytes@) == Ok::<Seq<char>, Seq<char>>(t@),
            Err(e) => yaml_reserialized(bytes@) == Err::<Seq<char>, Seq<char>>(e@),
        },
{
    let v: serde_json::Value = serde_yaml::from_slice(bytes).map_err(|e| e.to_string())?;
    serde_json::to_string(&v).map_err(|e| e.to_string())
}

/// `serde_json::from_slice` into a `serde_json::Value`; the error's text.
/// Claims only that the result is the one `json_syntax_error` names.
#[verifier::external_body]
fn json_syntax_check(bytes: &[u8]) -> (r: Option<String>)
    ensures
        urls::opt_str_view(r) == json_syntax_error(bytes@),
{
    serde_json::from_slice::<serde_json::Value>(bytes).err().map(|e| e.to_string())
}

/// `serde_yaml::from_slice` into a `serde_json::Value`; the error's text.
/// Claims only that the result is the one `yaml_syntax_error` names.
#[verifier::external_body]
fn yaml_syntax_check(bytes: &[u8]) -> (r: Option<String>)
    ensures
        urls::opt_str_view(r) == yaml_syntax_error(bytes@),
{
    serde_yaml::from_slice::<serde_json::Value>(bytes).err().map(|e| e.to_string())
}

/// The document re-serialized with the parser for its format
/// (`reserialized`).
fn reserialize(bytes: &[u8], is_json: bool) -> (r: Result<String, String>)
    ensures
        match r {
            Ok(t) => reserialized(bytes@, is_json) == Ok::<Seq<char>, Seq<char>>(t@),
            Err(e) => reserialized(bytes@, is_json) == Err::<Seq<char>, Seq<char>>(e@),
        },
{
    if is_json {
        json_reserialize(bytes)
    } else {
        yaml_reserialize(bytes)
    }
}

/// The syntax check for the document's format (`syntax_error`).
fn syntax_check(bytes: &[u8], is_json: bool) -> (r: Option<String>)
    ensures
        urls::opt_str_view(r) == syntax_error(bytes@, is_json),
{
    if is_json {
        json_syntax_check(bytes)
    } else {
        yaml_syntax_check(bytes)
    }
}

/// `String::from_utf8_lossy`. Claims only that the result is the one
/// `lossy_text` names.
#[verifier::external_body]
pub(crate) fn utf8_lossy(bytes: &[u8]) -> (r: String)
    ensures
        r@ == lossy_text(bytes@),
{
    String::from_utf8_lossy(bytes).into_owned()
}

/// `serde_json::from_str::<openapiv3::OpenAPI>`, its error as text. Claims
/// only that the result is the one `openapiv3_json_error` names.
#[verifier::external_body]
fn openapiv3_from_json(text: &str) -> (r: Option<String>)
    ensures
        urls::opt_str_view(r) == openapiv3_json_error(text@),
{
    serde_json::from_str::<openapiv3::OpenAPI>(text).err().map(|e| e.to_string())
}

/// `serde_yaml::from_slice::<openapiv3::OpenAPI>`, its error as text. Claims
/// only that the result is the one `openapiv3_yaml_error` names.
#[verifier::external_body]
fn openapiv3_from_yaml(bytes: &[u8]) -> (r: Option<String>)
    ensures
        urls::opt_str_view(r) == openapiv3_yaml_error(bytes@),
{
    serde_yaml::from_slice::<openapiv3::OpenAPI>(bytes).err().map(|e| e.to_string())
}

/// `oas3::from_json`, its error as text. Claims only that the result is the
/// one `oas3_error` names.
#[verifier::external_body]
fn oas3_from_json(json: &str) -> (r: Option<String>)
    ensures
        urls::opt_str_view(r) == oas3_error(json@),
{
    oas3::from_json(json).err().map(|e| e.to_string())
}

pub open spec fn is_json(format: SpecFormat) -> bool {
    format == SpecFormat::Json
}

/// The checks of a 3.0 document: `openapiv3` reads its JSON text (the bytes
/// for JSON, the re-serialized value for YAML), else its YAML bytes.
pub open spec fn v3_0_spec(bytes: Seq<u8>, is_json: bool) -> Option<Seq<char>> {
    let text: Result<Seq<char>, Seq<char>> = if is_json {
        Ok(lossy_text(bytes))
    } else {
        reserialized(bytes, false)
    };
    match text {
        Err(e) => Some(e),
        Ok(t) => if openapiv3_json_error(t) is None || openapiv3_yaml_error(bytes) is None {
            None
        } else {
            Some("openapiv3: "@ + openapiv3_yaml_error(bytes)->0)
        },
    }
}

/// The checks of a 3.1 document: `oas3` reads the re-serialized value.
pub open spec fn v3_1_spec(bytes: Seq<u8>, is_json: bool) -> Option<Seq<char>> {
    match reserialized(bytes, is_json) {
        Err(e) => Some(e),
        Ok(j) => match oas3_error(j) {
            None => None,
            Some(e) => Some("oas3: "@ + e),
        },
    }
}

/// The checks in order: the syntax, the version, then the parser crate of
/// the family. The declared version on success.
pub open spec fn validate_spec(bytes: Seq<u8>, format: SpecFormat, family: OpenApiFamily) -> Result<Seq<char>, Seq<char>> {
    let version = match loader::top_str(bytes, format, "openapi"@) {
        Some(v) => v,
        None => Seq::empty(),
    };
    let family_error = match family {
        OpenApiFamily::V3_0 => v3_0_spec(bytes, is_json(format)),
        OpenApiFamily::V3_1 => v3_1_spec(bytes, is_json(format)),
    };
    if syntax_error(bytes, is_json(format)) is Some {
        Err(syntax_error(bytes, is_json(format))->0)
    } else if require_openapi_3_spec(version, loader::top_str(bytes, format, "swagger"@)) is Err {
        Err(require_openapi_3_spec(version, loader::top_str(bytes, format, "swagger"@))->Err_0)
    } else if family_error is Some {
        Err(family_error->0)
    } else {
        Ok(version)
    }
}

fn check_v3_0(bytes: &[u8], is_json: bool) -> (r: Option<String>)
    ensures
        urls::opt_str_view(r) == v3_0_spec(bytes@, is_json),
{
    let text = if is_json {
        utf8_lossy(bytes)
    } else {
        match reserialize(bytes, false) {
            Ok(t) => t,
            Err(e) => {
                return Some(e);
            },
        }
    };
    if openapiv3_from_json(text.as_str()).is_none() {
        return None;
    }
    match openapiv3_from_yaml(bytes) {
        None => None,
        Some(e) => Some(text::cat("openapiv3: ", e.as_str())),
    }
}

fn check_v3_1(bytes: &[u8], is_json: bool) -> (r: Option<String>)
    ensures
        urls::opt_str_view(r) == v3_1_spec(bytes@, is_json),
{
    let json = match reserialize(bytes, is_json) {
        Ok(t) => t,
        Err(e) => {
            return Some(e);
        },
    };
    match oas3_from_json(json.as_str()) {
        None => None,
        Some(e) => Some(text::cat("oas3: ", e.as_str())),
    }
}

/// Checks a document before it is compiled (`validate_spec`); returns the
/// declared OpenAPI version.
pub fn validate_document(bytes: &[u8], format: SpecFormat, family: OpenApiFamily) -> (r: Result<String, ParseError>)
    ensures
        match r {
            Ok(v) => validate_spec(bytes@, format, family) == Ok::<Seq<char>, Seq<char>>(v@),
            Err(ParseError::Parse(m)) => validate_spec(bytes@, format, family) == Err::<
                Seq<char>,
                Seq<char>,
            >(m@),
        },
{
    let json = match format {
        SpecFormat::Json => true,
        SpecFormat::Yaml => false,
    };
    match syntax_check(bytes, json) {
        Some(e) => {
            return Err(ParseError::Parse(e));
        },
        None => {},
    }
    let version = match loader::top_level_string(bytes, format, "openapi") {
        Some(v) => v,
        None => String::new(),
    };
    let swagger = loader::top_level_string(bytes, format, "swagger");
    let sw: Option<&str> = match &swagger {
        Some(s) => Some(s.as_str()),
        None => None,
    };
    match require_openapi_3(version.as_str(), sw) {
        Err(m) => {
            return Err(ParseError::Parse(m));
        },
        Ok(()) => {},
    }
    let check = match family {
        OpenApiFamily::V3_0 => check_v3_0(bytes, json),
        OpenApiFamily::V3_1 => check_v3_1(bytes, json),
    };
    match check {
        Some(e) => Err(ParseError::Parse(e)),
        None => Ok(version),
    }
}

} // verus!
