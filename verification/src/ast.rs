//! The structured description of the input sum type, the diagnostics, and the
//! spec-level reading of both: variant names, coverage, diversity, eligibility.

use vstd::prelude::*;

verus! {

/// One named field of a variant: the field's name and the canonical textual
/// rendering of its type expression. Renderings are the equality key: two
/// occurrences have the same type exactly when their renderings are equal,
/// character for character, so an alias is distinct from its underlying type.
pub struct FieldDef {
    pub name: String,
    pub ty: String,
}

/// The field list of one variant.
pub enum VariantFields {
    /// Named fields, in source order.
    Named(Vec<FieldDef>),
    /// Positional or absent fields: the variant contributes no occurrences.
    Other,
}

/// One variant of the sum type: a name plus its field list.
pub struct VariantDef {
    pub name: String,
    pub fields: VariantFields,
}

/// The generic parameter list and constraint clause of the source type,
/// rendered verbatim; both reappear unchanged on the generated extension.
/// Either rendering may be empty.
pub struct GenericsDef {
    pub params: String,
    pub where_clause: String,
}

/// What kind of type the input describes.
pub enum InputData {
    /// A sum type, with its ordered variant list.
    Enum(Vec<VariantDef>),
    /// A product type: not a sum type.
    Struct,
    /// An untagged union: not a sum type.
    Union,
}

/// A structured description of the input type, as the host parser hands it over.
pub struct DeriveInput {
    pub name: String,
    pub generics: GenericsDef,
    pub data: InputData,
}

/// A non-fatal diagnostic, anchored at the offending variant or field name.
#[derive(Debug)]
pub enum Diagnostic {
    /// The variant has no named fields and contributes nothing.
    ShapeWarning { variant: String },
    /// The field name occurs with more than one type rendering and is
    /// excluded from synthesis entirely.
    TypeAmbiguityWarning { field: String },
}

/// The two severities of the diagnostics channel.
pub enum Severity {
    /// Non-blocking: processing continues with degraded output.
    Warning,
    /// Blocking: the whole derivation aborts with no output.
    Fatal,
}

impl Diagnostic {
    /// The warning text, as the host's diagnostics sink shows it.
    pub fn message(&self) -> (r: String)
        ensures
            *self is ShapeWarning ==> r@ == "No fields will be generated for this type of enum"@,
            *self is TypeAmbiguityWarning ==> r@
                == "Field type is not unique and will not have any accessors"@,
    {
        match self {
            Diagnostic::ShapeWarning { .. } => "No fields will be generated for this type of enum".to_owned(),
            Diagnostic::TypeAmbiguityWarning { .. } => "Field type is not unique and will not have any accessors".to_owned(),
        }
    }

    /// The name of the variant or field the warning is anchored at.
    pub fn anchor(&self) -> (r: &String)
        ensures
            r@ == diag_view(*self).1,
    {
        match self {
            Diagnostic::ShapeWarning { variant } => variant,
            Diagnostic::TypeAmbiguityWarning { field } => field,
        }
    }

    /// Both diagnostics are warnings: they degrade output, never abort.
    pub fn severity(&self) -> (r: Severity)
        ensures
            r is Warning,
    {
        Severity::Warning
    }
}

/// The fatal condition: the input is not a sum type. Nothing is generated.
#[derive(Debug)]
pub struct StructuralError {
    /// The name of the offending type.
    pub name: String,
}

impl StructuralError {
    /// The error text.
    pub fn message(&self) -> (r: String)
        ensures
            r@ == "This derive must be used on an enum"@,
    {
        "This derive must be used on an enum".to_owned()
    }

    /// A structural error is fatal: the derivation aborts with no output.
    pub fn severity(&self) -> (r: Severity)
        ensures
            r is Fatal,
    {
        Severity::Fatal
    }
}

/// The generated extension: one self-contained code fragment, plus the
/// warnings gathered during collection and resolution, in that order.
#[derive(Debug)]
pub struct Expansion {
    pub code: String,
    pub diagnostics: Vec<Diagnostic>,
}

// --- mathematical views of the input ---

/// The view of one field occurrence.
pub ghost struct FieldDefV {
    pub name: Seq<char>,
    pub ty: Seq<char>,
}

/// The view of one variant: its name, and its named fields when it has any.
pub ghost struct VariantDefV {
    pub name: Seq<char>,
    pub fields: Option<Seq<FieldDefV>>,
}

/// The view of a field definition.
pub open spec fn fview(f: FieldDef) -> FieldDefV {
    FieldDefV { name: f.name@, ty: f.ty@ }
}

/// The views of a field list.
pub open spec fn fviews(fs: Seq<FieldDef>) -> Seq<FieldDefV> {
    fs.map_values(|f: FieldDef| fview(f))
}

/// The view of a variant.
pub open spec fn vview(v: VariantDef) -> VariantDefV {
    VariantDefV {
        name: v.name@,
        fields: match v.fields {
            VariantFields::Named(fs) => Some(fviews(fs@)),
            VariantFields::Other => None,
        },
    }
}

/// The views of a variant list.
pub open spec fn vviews(vs: Seq<VariantDef>) -> Seq<VariantDefV> {
    vs.map_values(|v: VariantDef| vview(v))
}

/// The view of a diagnostic: whether it is a type-ambiguity warning (as
/// opposed to a shape warning), and the name it is anchored at.
pub open spec fn diag_view(d: Diagnostic) -> (bool, Seq<char>) {
    match d {
        Diagnostic::ShapeWarning { variant } => (false, variant@),
        Diagnostic::TypeAmbiguityWarning { field } => (true, field@),
    }
}

/// The views of a diagnostics list.
pub open spec fn diag_views(ds: Seq<Diagnostic>) -> Seq<(bool, Seq<char>)> {
    ds.map_values(|d: Diagnostic| diag_view(d))
}

// --- occurrences, coverage, diversity ---

/// Whether the variant carries a named field `f` rendered as type `t`.
pub open spec fn has_occurrence(v: VariantDefV, f: Seq<char>, t: Seq<char>) -> bool {
    match v.fields {
        Some(fs) => exists|k: int|
            0 <= k < fs.len() && (#[trigger] fs[k]).name == f && fs[k].ty == t,
        None => false,
    }
}

/// Whether the variant carries a named field `f`.
pub open spec fn has_field(v: VariantDefV, f: Seq<char>) -> bool {
    exists|t: Seq<char>| has_occurrence(v, f, t)
}

/// Whether some variant of the list is named `n`.
pub open spec fn is_variant_name(vs: Seq<VariantDefV>, n: Seq<char>) -> bool {
    exists|i: int| 0 <= i < vs.len() && (#[trigger] vs[i]).name == n
}

/// Coverage membership: some variant named `n` carries field `f`.
pub open spec fn in_coverage(vs: Seq<VariantDefV>, f: Seq<char>, n: Seq<char>) -> bool {
    exists|i: int| 0 <= i < vs.len() && (#[trigger] vs[i]).name == n && has_field(vs[i], f)
}

/// Diversity membership: rendering `t` is observed for field `f`.
pub open spec fn in_diversity(vs: Seq<VariantDefV>, f: Seq<char>, t: Seq<char>) -> bool {
    exists|i: int| 0 <= i < vs.len() && has_occurrence(#[trigger] vs[i], f, t)
}

/// Whether the field name occurs in any variant.
pub open spec fn occurs(vs: Seq<VariantDefV>, f: Seq<char>) -> bool {
    exists|t: Seq<char>| in_diversity(vs, f, t)
}

/// Whether the field name occurs with two distinct renderings.
pub open spec fn ambiguous(vs: Seq<VariantDefV>, f: Seq<char>) -> bool {
    exists|t1: Seq<char>, t2: Seq<char>|
        in_diversity(vs, f, t1) && in_diversity(vs, f, t2) && t1 != t2
}

/// A field name is eligible when it occurs and all of its occurrences agree
/// on one rendering; only eligible fields receive accessors.
pub open spec fn eligible(vs: Seq<VariantDefV>, f: Seq<char>) -> bool {
    occurs(vs, f) && !ambiguous(vs, f)
}

/// A field name is fully covered when every variant carries it.
pub open spec fn fully_covered(vs: Seq<VariantDefV>, f: Seq<char>) -> bool {
    forall|i: int| 0 <= i < vs.len() ==> has_field(#[trigger] vs[i], f)
}

/// The shape warnings of the collection pass: one per variant without named
/// fields, in variant order.
pub open spec fn shape_diags(vs: Seq<VariantDef>) -> Seq<Diagnostic>
    decreases vs.len(),
{
    if vs.len() == 0 {
        Seq::empty()
    } else {
        shape_diags(vs.drop_last()) + (if vs.last().fields is Named {
            Seq::<Diagnostic>::empty()
        } else {
            seq![Diagnostic::ShapeWarning { variant: vs.last().name }]
        })
    }
}

} // verus!
