//! Worklog attribute resolution.
//!
//! A worklog entry carries attributes. Static templates are taken verbatim
//! from configuration; a dynamic template's `value` is a pointer path into the
//! task's field data, and resolving it replaces the path with the string found
//! there. Resolution is a function of the fields and the templates alone: the
//! resolved dynamic attributes come first, in template order, then the static
//! templates verbatim, and the first failing template decides the error.

use vstd::prelude::*;

use crate::json::JsonValue;
use crate::json::spec_pointer_in_fields;
use crate::json::pointer_in_fields;
use vstd::string::StrSliceExecFns;

verus! {

/// A named key/value pair to attach to a worklog entry. For a static template
/// `value` is the literal value to submit; for a dynamic template it is the
/// pointer path to resolve against the task's fields.
#[derive(Debug)]
pub struct WorkAttribute {
    pub key: String,
    pub name: String,
    pub work_attribute_id: u64,
    pub value: String,
}

/// Why a dynamic template failed to resolve.
#[derive(Debug, PartialEq, Eq, Structural, Clone, Copy)]
pub enum ResolutionError {
    /// The path names nothing in the task's fields.
    PathNotFound,
    /// The path names a value that is not a string.
    NotAString,
}

impl WorkAttribute {
    /// An equal copy, field by field.
    pub fn duplicate(&self) -> (r: WorkAttribute)
        ensures
            r == *self,
    {
        WorkAttribute {
            key: self.key.clone(),
            name: self.name.clone(),
            work_attribute_id: self.work_attribute_id,
            value: self.value.clone(),
        }
    }
}

/// An equal copy of an attribute list, entry by entry.
pub fn duplicate_attributes(attrs: &Vec<WorkAttribute>) -> (r: Vec<WorkAttribute>)
    ensures
        r@ == attrs@,
{
    let mut out: Vec<WorkAttribute> = Vec::new();
    let n = attrs.len();
    let mut i: usize = 0;
    while i < n
        invariant
            i <= n,
            n == attrs@.len(),
            out@ =~= attrs@.take(i as int),
        decreases n - i,
    {
        out.push(attrs[i].duplicate());
        proof {
            assert(attrs@.take(i as int).push(attrs@[i as int]) =~= attrs@.take(i + 1));
        }
        i += 1;
    }
    proof {
        assert(attrs@.take(n as int) =~= attrs@);
    }
    out
}

/// What one dynamic template resolves to: the template with its path replaced
/// by the string the path names. The empty path names the whole field mapping,
/// which is not a string.
pub open spec fn spec_resolve_one(
    fields: Seq<(String, JsonValue)>,
    template: WorkAttribute,
) -> Result<WorkAttribute, ResolutionError> {
    if template.value@.len() == 0 {
        Err(ResolutionError::NotAString)
    } else {
        match spec_pointer_in_fields(fields, template.value@) {
            None => Err(ResolutionError::PathNotFound),
            Some(v) => match v {
                JsonValue::Str(s) => Ok(
                    WorkAttribute {
                        key: template.key,
                        name: template.name,
                        work_attribute_id: template.work_attribute_id,
                        value: s,
                    },
                ),
                _ => Err(ResolutionError::NotAString),
            },
        }
    }
}

/// What a sequence of dynamic templates resolves to, in order, stopping at the
/// first failure.
pub open spec fn spec_resolve_all(
    fields: Seq<(String, JsonValue)>,
    templates: Seq<WorkAttribute>,
) -> Result<Seq<WorkAttribute>, ResolutionError>
    decreases templates.len(),
{
    if templates.len() == 0 {
        Ok(Seq::empty())
    } else {
        match spec_resolve_all(fields, templates.drop_last()) {
            Err(e) => Err(e),
            Ok(rs) => match spec_resolve_one(fields, templates.last()) {
                Err(e) => Err(e),
                Ok(a) => Ok(rs.push(a)),
            },
        }
    }
}

/// The resolver's full result: the resolved dynamic attributes followed by the
/// static templates verbatim.
pub open spec fn spec_resolve_attributes(
    fields: Seq<(String, JsonValue)>,
    dynamic_templates: Seq<WorkAttribute>,
    static_templates: Seq<WorkAttribute>,
) -> Result<Seq<WorkAttribute>, ResolutionError> {
    match spec_resolve_all(fields, dynamic_templates) {
        Err(e) => Err(e),
        Ok(rs) => Ok(rs + static_templates),
    }
}

/// A failure among the first `m` templates decides the whole sequence.
proof fn lemma_resolve_all_prefix_err(
    fields: Seq<(String, JsonValue)>,
    templates: Seq<WorkAttribute>,
    m: int,
)
    requires
        0 <= m <= templates.len(),
        spec_resolve_all(fields, templates.take(m)) is Err,
    ensures
        spec_resolve_all(fields, templates) == spec_resolve_all(fields, templates.take(m)),
    decreases templates.len() - m,
{
    if m < templates.len() {
        assert(templates.take(m + 1).drop_last() =~= templates.take(m));
        lemma_resolve_all_prefix_err(fields, templates, m + 1);
    } else {
        assert(templates.take(m) =~= templates);
    }
}

/// Resolves the dynamic templates against a task's fields and appends the
/// static templates. A function of its arguments alone; the result is pinned
/// exactly by `spec_resolve_attributes`.
pub fn resolve_attributes(
    fields: &Vec<(String, JsonValue)>,
    dynamic_templates: &Vec<WorkAttribute>,
    static_templates: &Vec<WorkAttribute>,
) -> (r: Result<Vec<WorkAttribute>, ResolutionError>)
    ensures
        (match r {
            Ok(v) => spec_resolve_attributes(fields@, dynamic_templates@, static_templates@)
                == Ok::<Seq<WorkAttribute>, ResolutionError>(v@),
            Err(e) => spec_resolve_attributes(fields@, dynamic_templates@, static_templates@)
                == Err::<Seq<WorkAttribute>, ResolutionError>(e),
        }),
{
    let mut out: Vec<WorkAttribute> = Vec::new();
    let n = dynamic_templates.len();
    let mut i: usize = 0;
    while i < n
        invariant
            i <= n,
            n == dynamic_templates@.len(),
            spec_resolve_all(fields@, dynamic_templates@.take(i as int)) == Ok::<
                Seq<WorkAttribute>,
                ResolutionError,
            >(out@),
        decreases n - i,
    {
        let t = &dynamic_templates[i];
        proof {
            assert(dynamic_templates@.take(i + 1).drop_last() =~= dynamic_templates@.take(
                i as int,
            ));
            assert(dynamic_templates@.take(i + 1).last() == dynamic_templates@[i as int]);
        }
        if t.value.as_str().unicode_len() == 0 {
            proof {
                lemma_resolve_all_prefix_err(fields@, dynamic_templates@, i + 1);
            }
            return Err(ResolutionError::NotAString);
        }
        match pointer_in_fields(fields, &t.value) {
            None => {
                proof {
                    lemma_resolve_all_prefix_err(fields@, dynamic_templates@, i + 1);
                }
                return Err(ResolutionError::PathNotFound);
            },
            Some(v) => match v {
                JsonValue::Str(s) => {
                    out.push(
                        WorkAttribute {
                            key: t.key.clone(),
                            name: t.name.clone(),
                            work_attribute_id: t.work_attribute_id,
                            value: s.clone(),
                        },
                    );
                },
                _ => {
                    proof {
                        lemma_resolve_all_prefix_err(fields@, dynamic_templates@, i + 1);
                    }
                    return Err(ResolutionError::NotAString);
                },
            },
        }
        i += 1;
    }
    proof {
        assert(dynamic_templates@.take(n as int) =~= dynamic_templates@);
    }
    let ghost resolved = out@;
    let m = static_templates.len();
    let mut j: usize = 0;
    while j < m
        invariant
            j <= m,
            m == static_templates@.len(),
            out@ == resolved + static_templates@.take(j as int),
        decreases m - j,
    {
        out.push(static_templates[j].duplicate());
        proof {
            assert(resolved + static_templates@.take(j + 1) =~= (resolved + static_templates@.take(
                j as int,
            )).push(static_templates@[j as int]));
        }
        j += 1;
    }
    proof {
        assert(static_templates@.take(m as int) =~= static_templates@);
    }
    Ok(out)
}

/// Law: on success the resolver keeps the template order — each dynamic
/// template's resolved value at its own position, then the static templates
/// verbatim — and it succeeds exactly when every dynamic template resolves.
pub proof fn lemma_resolved_order(
    fields: Seq<(String, JsonValue)>,
    dynamic_templates: Seq<WorkAttribute>,
    static_templates: Seq<WorkAttribute>,
)
    ensures
        (spec_resolve_attributes(fields, dynamic_templates, static_templates) matches Ok(rs) ==> {
            &&& rs.len() == dynamic_templates.len() + static_templates.len()
            &&& (forall|i: int|
                0 <= i < dynamic_templates.len() ==> spec_resolve_one(
                    fields,
                    dynamic_templates[i],
                ) == Ok::<WorkAttribute, ResolutionError>(rs[i]))
            &&& (forall|j: int|
                0 <= j < static_templates.len() ==> rs[dynamic_templates.len() + j]
                    == static_templates[j])
        }),
        spec_resolve_attributes(fields, dynamic_templates, static_templates) is Ok <==> (forall|
            i: int,
        |
            0 <= i < dynamic_templates.len() ==> spec_resolve_one(
                fields,
                #[trigger] dynamic_templates[i],
            ) is Ok),
{
    lemma_resolve_all_props(fields, dynamic_templates);
}

/// Structure of `spec_resolve_all`: on success one resolved value per
/// template, at its own position; success exactly when every template
/// resolves.
proof fn lemma_resolve_all_props(fields: Seq<(String, JsonValue)>, templates: Seq<WorkAttribute>)
    ensures
        (spec_resolve_all(fields, templates) matches Ok(rs) ==> {
            &&& rs.len() == templates.len()
            &&& (forall|i: int|
                0 <= i < templates.len() ==> spec_resolve_one(fields, templates[i]) == Ok::<
                    WorkAttribute,
                    ResolutionError,
                >(rs[i]))
        }),
        spec_resolve_all(fields, templates) is Ok <==> (forall|i: int|
            0 <= i < templates.len() ==> spec_resolve_one(
                fields,
                #[trigger] templates[i],
            ) is Ok),
    decreases templates.len(),
{
    if templates.len() > 0 {
        lemma_resolve_all_props(fields, templates.drop_last());
        assert forall|i: int| 0 <= i < templates.len() - 1 implies templates.drop_last()[i]
            == templates[i] by {}
        if spec_resolve_all(fields, templates.drop_last()) is Ok && spec_resolve_one(
            fields,
            templates.last(),
        ) is Ok {
            assert(spec_resolve_one(fields, templates[templates.len() - 1]) is Ok);
        }
    }
}

/// Law: a dynamic template fails with `PathNotFound` exactly when its path
/// names nothing in the fields, and with `NotAString` exactly when it names
/// the whole mapping (the empty path) or a value that is not a string.
pub proof fn lemma_resolve_one_errors(fields: Seq<(String, JsonValue)>, template: WorkAttribute)
    ensures
        spec_resolve_one(fields, template) == Err::<WorkAttribute, ResolutionError>(
            ResolutionError::PathNotFound,
        ) <==> (template.value@.len() > 0 && spec_pointer_in_fields(
            fields,
            template.value@,
        ) is None),
        spec_resolve_one(fields, template) == Err::<WorkAttribute, ResolutionError>(
            ResolutionError::NotAString,
        ) <==> (template.value@.len() == 0 || (spec_pointer_in_fields(fields, template.value@)
            matches Some(v) && !(v is Str))),
{
}

} // verus!
