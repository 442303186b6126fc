//! An operation on its way to a tool: what was read of it, where its input
//! schema is gathered, and the bundled schemas that come back for it.
use vstd::prelude::*;
use crate::destructive::Classification;
use crate::json::{self, Json, JsonView, Obj};
use crate::schema::{self, strings_view};
use crate::urls::opt_str_view;
use crate::warnings::{self, Warning, WarningCode, warn_spec, warnings_view};

verus! {

/// An operation read from the document, before lowering.
pub struct Draft {
    pub method: String,
    pub path: String,
    pub operation_id: Option<String>,
    pub summary: Option<String>,
    pub description: Option<String>,
    pub tags: Vec<String>,
    pub deprecated: bool,
    pub op: Json,
    pub path_item: Json,
    pub class: Classification,
    pub candidate_name: String,
}

/// Where the input schema of an operation is gathered: its properties and
/// required names, the definitions its schemas share, whether a definition
/// refers to itself, the findings and the codes that block the operation.
pub struct SchemaSink {
    pub properties: Obj,
    pub required: Vec<String>,
    pub defs: Obj,
    pub had_cycle: bool,
    pub warnings: Vec<Warning>,
    pub blocking_codes: Vec<WarningCode>,
}

impl SchemaSink {
    pub open spec fn wf(&self) -> bool {
        self.properties.wf() && self.defs.wf()
    }

    /// An empty sink.
    pub fn new() -> (r: SchemaSink)
        ensures
            r.wf(),
            r.properties.keys@.len() == 0,
            r.required@.len() == 0,
            r.defs.keys@.len() == 0,
            !r.had_cycle,
            r.warnings@.len() == 0,
            r.blocking_codes@.len() == 0,
    {
        SchemaSink {
            properties: Obj { keys: Vec::new(), vals: Vec::new() },
            required: Vec::new(),
            defs: Obj { keys: Vec::new(), vals: Vec::new() },
            had_cycle: false,
            warnings: Vec::new(),
            blocking_codes: Vec::new(),
        }
    }
}

/// A schema after bundling: the bundled schema, whether its definitions
/// refer to themselves, and the references left unresolved.
pub struct BundleOutcome {
    pub schema: Json,
    pub had_cycle: bool,
    pub unresolved: Vec<String>,
}

/// A finding about the draft's operation.
pub open spec fn draft_warn(d: Draft, code: WarningCode, message: Seq<char>) -> warnings::WarningView {
    warn_spec(code, opt_str_view(d.operation_id), Some(d.method@), Some(d.path@), message)
}

/// A finding about the draft's operation (`draft_warn`).
pub fn warn_for(d: &Draft, code: WarningCode, message: &str) -> (r: Warning)
    ensures
        r@ == draft_warn(*d, code, message@),
{
    let id = match &d.operation_id {
        Some(s) => Some(s.clone()),
        None => None,
    };
    warnings::warn(code, id, Some(d.method.as_str()), Some(d.path.as_str()), message.to_owned())
}

/// A bundled schema made ready for the input: unresolved references fail;
/// else its definitions move into `defs` and its `allOf` is flattened where
/// it can be. The cycle flag is kept in either case.
pub open spec fn apply_bundle_spec(bundled_schema: JsonView, unresolved: bool, defs: schema::Props) -> (Option<(JsonView, bool)>, schema::Props) {
    if unresolved {
        (None, defs)
    } else {
        let (s1, d1) = schema::hoist_spec(bundled_schema, defs);
        let (s2, left) = schema::flatten_spec(s1);
        (Some((s2, left)), d1)
    }
}

/// `apply_bundle_spec`; the error carries the unresolved references.
pub fn apply_bundle(bundled: BundleOutcome, defs: &mut Obj, had_cycle: &mut bool) -> (r: Result<(Json, bool), Vec<String>>)
    requires
        old(defs).wf(),
    ensures
        final(defs).wf(),
        *final(had_cycle) == (*old(had_cycle) || bundled.had_cycle),
        ({
            let (out, d) = apply_bundle_spec(
                bundled.schema@,
                bundled.unresolved@.len() > 0,
                (old(defs).ks(), old(defs).vs()),
            );
            &&& (final(defs).ks(), final(defs).vs()) == d
            &&& match r {
                Ok((s, left)) => out == Some((s@, left)),
                Err(u) => out is None && strings_view(u@) == strings_view(bundled.unresolved@),
            }
        }),
{
    *had_cycle = *had_cycle || bundled.had_cycle;
    if bundled.unresolved.len() > 0 {
        return Err(bundled.unresolved);
    }
    let mut s = bundled.schema;
    schema::hoist_defs(&mut s, defs);
    let left = schema::flatten_allof(&mut s);
    Ok((s, left))
}

/// The findings about a lowered schema: an `allOf` left, a discriminator.
pub open spec fn schema_notes(s: JsonView, leftover: bool, d: Draft) -> Seq<warnings::WarningView> {
    let a = if leftover || json::get_spec(s, "allOf"@) is Some {
        seq![draft_warn(d, WarningCode::AllOfUnflattened, "allOf retained"@)]
    } else {
        Seq::empty()
    };
    if json::get_spec(s, "discriminator"@) is Some {
        a.push(draft_warn(d, WarningCode::Discriminator, "discriminator present"@))
    } else {
        a
    }
}

/// Records the findings about a lowered schema (`schema_notes`).
pub fn note_schema(s: &Json, leftover: bool, d: &Draft, ws: &mut Vec<Warning>)
    ensures
        warnings_view(final(ws)@) == warnings_view(old(ws)@) + schema_notes(s@, leftover, *d),
{
    let ghost w0 = warnings_view(ws@);
    if leftover || s.get("allOf").is_some() {
        ws.push(warn_for(d, WarningCode::AllOfUnflattened, "allOf retained"));
    }
    let ghost w1 = warnings_view(ws@);
    assert(w1 =~= w0 + (if leftover || json::get_spec(s@, "allOf"@) is Some {
        seq![draft_warn(*d, WarningCode::AllOfUnflattened, "allOf retained"@)]
    } else {
        Seq::empty()
    }));
    if s.get("discriminator").is_some() {
        ws.push(warn_for(d, WarningCode::Discriminator, "discriminator present"));
        assert(warnings_view(ws@) =~= w1.push(ws@.last()@));
    }
}

} // verus!
