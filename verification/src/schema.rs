//! The declarative model of a suggestion schema.
//!
//! A suggestion union is described as an ordered list of variants; each
//! variant either has no fields or a list of named fields, and every field is
//! assigned exactly one role by a `yoetz` attribute: `key` (identity
//! bearing), `input` (refreshed every cycle the suggestion is re-offered) or
//! `state` (initialized once, then owned by whoever acts on the behavior).

use vstd::prelude::*;

use crate::attr::{parse_attr_args, spec_split_args, AttrArg, AttrToken};

verus! {

/// The role a field of a suggestion variant plays.
#[derive(Clone, Copy, Debug, PartialEq, Eq, Structural)]
pub enum FieldRole {
    /// Identity bearing: a change in this field makes a different behavior.
    Key,
    /// Refreshed from the suggestion every cycle it is re-offered.
    Input,
    /// Initialized when the behavior is entered, then owned by the actor.
    State,
}

/// The configuration collected from the `yoetz` attributes of one field.
#[derive(Clone, Copy, Debug, PartialEq, Eq, Structural)]
pub struct FieldConfig {
    /// The role the attributes assigned, if any was given yet.
    pub role: Option<FieldRole>,
}

impl Default for FieldConfig {
    /// A field starts with no role assigned.
    fn default() -> (r: Self)
        ensures
            r.role is None,
    {
        FieldConfig { role: None }
    }
}

impl DeepView for FieldRole {
    type V = FieldRole;

    open spec fn deep_view(&self) -> FieldRole {
        *self
    }
}

/// The role signature of a validated suggestion schema: for each variant, in
/// declaration order, the roles of its fields in declaration order.  A unit
/// variant has an empty role list.
///
/// This is the semantic content of a schema once names and attributes have
/// been resolved; the runtime transition operations are interpreted over it.
#[derive(Clone, Debug, PartialEq, Eq)]
pub struct SuggestionSignature {
    /// Per variant, the roles of its fields.
    pub variants: Vec<Vec<FieldRole>>,
}

impl View for SuggestionSignature {
    type V = Seq<Seq<FieldRole>>;

    open spec fn view(&self) -> Seq<Seq<FieldRole>> {
        self.variants.deep_view()
    }
}

/// An error found while validating a schema.  Schema errors are fatal to the
/// build of the schema's artifacts; each one identifies what was wrong and,
/// where there is one, the offending name.
#[derive(Clone, Debug, PartialEq, Eq)]
pub enum SchemaError {
    /// The suggestion union can only be derived from an enum.
    NotAnEnum,
    /// An attribute argument has a name that no setting answers to.
    UnknownParameter {
        /// The unknown name.
        name: String,
    },
    /// The named setting is not supported in flag form.
    NotSupportedAsFlag {
        /// The setting's name.
        name: String,
    },
    /// The named setting is not supported in key-value form.
    NotSupportedAsKeyValue {
        /// The setting's name.
        name: String,
    },
    /// The named setting is not supported as a nested attribute.
    NotSupportedAsNestedAttribute {
        /// The setting's name.
        name: String,
    },
    /// The named setting cannot be nullified with `!`.
    CannotBeNullified {
        /// The setting's name.
        name: String,
    },
    /// A field's role was given more than once.
    RepeatedRole,
    /// A flag setting was given although it is already set.
    AlreadySet {
        /// What the flag would set.
        caption: String,
    },
    /// A variant field carries no role attribute.
    MissingRole {
        /// The field's name.
        field: String,
    },
    /// Tuple variants are unsupported in a suggestion union.
    TupleVariant {
        /// The variant's name.
        variant: String,
    },
    /// A configuration attribute is not a non-empty argument list.
    ExpectedList,
    /// An attribute argument is not of the form `name`, `!name`,
    /// `name = value` or `name(...)`.
    MalformedArg,
    /// An argument that had to be a plain path is not one.
    ExpectedPath,
}

/// The payload of one attribute on an input item.
#[derive(Debug, PartialEq, Eq)]
pub enum AttrPayload {
    /// An argument list: `path(...)`, with the tokens between the
    /// parentheses.
    List(Vec<AttrToken>),
    /// Any other attribute form (a bare path, or `path = value`).
    Other,
}

/// One attribute on an input item, field or variant.
#[derive(Debug, PartialEq, Eq)]
pub struct InputAttr {
    /// The attribute's path.
    pub path: String,
    /// The attribute's payload.
    pub payload: AttrPayload,
}

/// One named field of a variant of the input union.
#[derive(Debug, PartialEq, Eq)]
pub struct FieldInput {
    /// The field's name; positional fields carry their index as text.
    pub name: String,
    /// The field's attributes.
    pub attrs: Vec<InputAttr>,
}

/// The fields of one variant of the input union.
#[derive(Debug, PartialEq, Eq)]
pub enum FieldsInput {
    /// A unit variant.
    Unit,
    /// A struct variant with named fields.
    Named(Vec<FieldInput>),
    /// A tuple variant with positional fields; these are rejected, but their
    /// attributes are still read first, as declared.
    Unnamed(Vec<FieldInput>),
}

/// One variant of the input union.
#[derive(Debug, PartialEq, Eq)]
pub struct VariantInput {
    /// The variant's name.
    pub name: String,
    /// The variant's fields.
    pub fields: FieldsInput,
}

/// The shape of the input item.
#[derive(Debug, PartialEq, Eq)]
pub enum InputData {
    /// An enum with the given variants.
    Enum(Vec<VariantInput>),
    /// Anything else; rejected.
    NotAnEnum,
}

/// The input the schema compiler reads: a model of the derive input item.
#[derive(Debug, PartialEq, Eq)]
pub struct SuggestionInput {
    /// The item's name.
    pub name: String,
    /// The attributes on the item itself.
    pub attrs: Vec<InputAttr>,
    /// The item's data.
    pub data: InputData,
}

/// The role a setting name denotes, if any.
pub open spec fn spec_role_of_name(n: Seq<char>) -> Option<FieldRole> {
    if n == "key"@ {
        Some(FieldRole::Key)
    } else if n == "input"@ {
        Some(FieldRole::Input)
    } else if n == "state"@ {
        Some(FieldRole::State)
    } else {
        None
    }
}

/// One role argument applied to a field's configuration; `None` is an
/// error: an unknown name, a non-flag form, or a repeated role.
pub open spec fn spec_field_meta(c: FieldConfig, arg: AttrArg) -> Option<FieldConfig> {
    match spec_role_of_name(arg.name_spec()) {
        Some(role) => match arg {
            AttrArg::Flag(_) => if c.role is Some {
                None
            } else {
                Some(FieldConfig { role: Some(role) })
            },
            _ => None,
        },
        None => None,
    }
}

/// Segment-level mirror of [`spec_field_meta`]: the transition only reads
/// an argument's name and form, which its segment determines.
pub open spec fn spec_field_seg(c: FieldConfig, seg: Seq<AttrToken>) -> Option<FieldConfig> {
    if !crate::attr::spec_seg_ok(seg) {
        None
    } else {
        match spec_role_of_name(spec_seg_name(seg)) {
            Some(role) => if seg.len() == 1 {
                if c.role is Some {
                    None
                } else {
                    Some(FieldConfig { role: Some(role) })
                }
            } else {
                None
            },
            None => None,
        }
    }
}

/// The name at the head of a well-shaped argument segment.
pub open spec fn spec_seg_name(seg: Seq<AttrToken>) -> Seq<char> {
    match seg[0] {
        AttrToken::Ident(s) => s@,
        _ => Seq::empty(),
    }
}

/// Segment-level fold of [`spec_field_seg`] over an argument list.
pub open spec fn spec_field_segs(c: FieldConfig, segs: Seq<Seq<AttrToken>>) -> Option<FieldConfig>
    decreases segs.len(),
{
    if segs.len() == 0 {
        Some(c)
    } else {
        match spec_field_seg(c, segs[0]) {
            Some(c2) => spec_field_segs(c2, segs.drop_first()),
            None => None,
        }
    }
}

/// One whole attribute applied to a field's configuration: an attribute
/// with another path is skipped; a `yoetz` attribute must carry a non-empty
/// argument list whose arguments all apply.
pub open spec fn spec_field_attr(c: FieldConfig, attr: InputAttr) -> Option<FieldConfig> {
    if attr.path@ != "yoetz"@ {
        Some(c)
    } else {
        match attr.payload {
            AttrPayload::List(toks) => if toks@.len() == 0 {
                None
            } else {
                spec_field_segs(c, spec_split_args(toks@))
            },
            AttrPayload::Other => None,
        }
    }
}

/// A field's attributes applied in order to an empty configuration.
pub open spec fn spec_field_attrs(c: FieldConfig, attrs: Seq<InputAttr>) -> Option<FieldConfig>
    decreases attrs.len(),
{
    if attrs.len() == 0 {
        Some(c)
    } else {
        match spec_field_attr(c, attrs[0]) {
            Some(c2) => spec_field_attrs(c2, attrs.drop_first()),
            None => None,
        }
    }
}

/// The configuration a field's attributes produce, when they are valid and
/// assign a role.
pub open spec fn spec_field_role(f: FieldInput) -> Option<FieldRole> {
    match spec_field_attrs(FieldConfig { role: None }, f.attrs@) {
        Some(c) => c.role,
        None => None,
    }
}

/// Whether a field's attributes are valid and assign it exactly one role.
pub open spec fn spec_field_ok(f: FieldInput) -> bool {
    spec_field_attrs(FieldConfig { role: None }, f.attrs@) matches Some(c) && c.role is Some
}

impl FieldConfig {
    /// Apply one attribute argument: a role name in flag form assigns the
    /// role, once; anything else is an error that leaves the configuration
    /// unchanged.
    pub fn apply_meta(&mut self, expr: AttrArg) -> (r: Result<(), SchemaError>)
        ensures
            match spec_field_meta(*old(self), expr) {
                Some(c2) => r is Ok && *final(self) == c2,
                None => r is Err && *final(self) == *old(self),
            },
            r matches Err(e) ==> match spec_role_of_name(expr.name_spec()) {
                Some(_) => match expr {
                    AttrArg::Flag(_) => e == SchemaError::RepeatedRole,
                    _ => expr.is_incorrect_type_error(e),
                },
                None => e matches SchemaError::UnknownParameter { name } && name@
                    == expr.name_spec(),
            },
    {
        let name = expr.name();
        let is_key = *name == "key".to_owned();
        let is_input = *name == "input".to_owned();
        let is_state = *name == "state".to_owned();
        if is_key || is_input || is_state {
            match &expr {
                AttrArg::Flag(_) => {
                    if self.role.is_some() {
                        return Err(SchemaError::RepeatedRole);
                    }
                    self.role = Some(
                        if is_key {
                            FieldRole::Key
                        } else if is_input {
                            FieldRole::Input
                        } else {
                            FieldRole::State
                        },
                    );
                    Ok(())
                },
                _ => Err(expr.incorrect_type()),
            }
        } else {
            Err(expr.unknown_name())
        }
    }

    /// Apply one whole attribute: nothing for a foreign path; for a `yoetz`
    /// attribute, its argument list parsed and applied in order.
    #[verifier::loop_isolation(false)]
    pub fn apply_attr(&mut self, attr: InputAttr) -> (r: Result<(), SchemaError>)
        ensures
            spec_field_attr(*old(self), attr) matches Some(c2) ==> r is Ok && *final(self) == c2,
            spec_field_attr(*old(self), attr) is None ==> r is Err,
    {
        if !(attr.path == "yoetz".to_owned()) {
            return Ok(());
        }
        let toks = match attr.payload {
            AttrPayload::List(toks) => toks,
            AttrPayload::Other => {
                return Err(SchemaError::ExpectedList);
            },
        };
        if toks.len() == 0 {
            return Err(SchemaError::ExpectedList);
        }
        let ghost toks_v = toks@;
        let ghost segs = spec_split_args(toks_v);
        let ghost c_start = *self;
        let mut args = match parse_attr_args(toks) {
            Ok(args) => args,
            Err(e) => {
                proof {
                    let t = choose|t: int|
                        0 <= t < segs.len() && !crate::attr::spec_seg_ok(segs[t]);
                    lemma_field_segs_any_bad(c_start, segs, t);
                }
                return Err(e);
            },
        };
        proof {
            assert(segs.skip(0) =~= segs);
        }
        while args.len() > 0
            invariant
                args@.len() <= segs.len(),
                forall|t: int|
                    0 <= t < args@.len() ==> crate::attr::spec_arg_matches(
                        #[trigger] segs[segs.len() - args@.len() + t],
                        args@[t],
                    ),
                forall|t: int| 0 <= t < segs.len() ==> crate::attr::spec_seg_ok(#[trigger] segs[t]),
                spec_field_segs(c_start, segs) == spec_field_segs(
                    *self,
                    segs.skip(segs.len() - args@.len()),
                ),
            decreases args.len(),
        {
            let ghost k = segs.len() - args@.len();
            let ghost args_pre = args@;
            let arg = args.remove(0);
            proof {
                assert(crate::attr::spec_arg_matches(segs[k + 0], args_pre[0]));
                assert(segs.skip(k)[0] == segs[k]);
                lemma_field_arg_seg_agree(*self, segs[k], arg);
            }
            let ghost c_before = *self;
            match self.apply_meta(arg) {
                Ok(()) => {},
                Err(e) => {
                    proof {
                        assert(spec_field_segs(c_before, segs.skip(k)) is None);
                    }
                    return Err(e);
                },
            }
            proof {
                assert(segs.skip(k).drop_first() =~= segs.skip(k + 1));
                assert(args@ =~= args_pre.drop_first());
                assert forall|t: int|
                    0 <= t < args@.len() implies crate::attr::spec_arg_matches(
                    #[trigger] segs[segs.len() - args@.len() + t],
                    args@[t],
                ) by {
                    assert(args@[t] == args_pre[t + 1]);
                    assert(segs.len() - args@.len() + t == k + t + 1);
                    assert(crate::attr::spec_arg_matches(
                        segs[segs.len() - args_pre.len() + (t + 1)],
                        args_pre[t + 1],
                    ));
                    assert(segs.len() - args_pre.len() + (t + 1) == segs.len() - args@.len() + t);
                }
            }
        }
        proof {
            assert(segs.skip(segs.len() as int) =~= Seq::<Seq<AttrToken>>::empty());
        }
        Ok(())
    }
}

impl FieldConfig {
    /// Read a field's configuration from its attributes, draining them.
    /// Every `yoetz` attribute must apply, and the field must end up with
    /// exactly one role; a field whose attributes assign none is an error
    /// naming the field.
    #[verifier::loop_isolation(false)]
    pub fn new_for(field: &mut FieldInput) -> (r: Result<FieldConfig, SchemaError>)
        ensures
            final(field).name == old(field).name,
            match spec_field_attrs(FieldConfig { role: None }, old(field).attrs@) {
                Some(c) => if c.role is Some {
                    r == Ok::<FieldConfig, SchemaError>(c) && final(field).attrs@.len() == 0
                } else {
                    r matches Err(e) && (e matches SchemaError::MissingRole { field: f } && f@
                        == old(field).name@)
                },
                None => r is Err,
            },
    {
        let mut result = FieldConfig::default();
        let ghost attrs0 = field.attrs@;
        let ghost c0 = FieldConfig { role: None };
        while field.attrs.len() > 0
            invariant
                field.name == old(field).name,
                spec_field_attrs(c0, attrs0) == spec_field_attrs(result, field.attrs@),
            decreases field.attrs.len(),
        {
            let ghost attrs_pre = field.attrs@;
            let ghost c_pre = result;
            let attr = field.attrs.remove(0);
            proof {
                assert(field.attrs@ =~= attrs_pre.drop_first());
            }
            match result.apply_attr(attr) {
                Ok(()) => {},
                Err(e) => {
                    proof {
                        assert(spec_field_attrs(c_pre, attrs_pre) is None);
                    }
                    return Err(e);
                },
            }
        }
        if result.role.is_none() {
            return Err(SchemaError::MissingRole { field: field.name.clone() });
        }
        Ok(result)
    }
}

/// A segment fold with a malformed segment anywhere in it fails.
proof fn lemma_field_segs_any_bad(c: FieldConfig, segs: Seq<Seq<AttrToken>>, t: int)
    requires
        0 <= t < segs.len(),
        !crate::attr::spec_seg_ok(segs[t]),
    ensures
        spec_field_segs(c, segs) is None,
    decreases t,
{
    if t == 0 {
    } else {
        match spec_field_seg(c, segs[0]) {
            Some(c2) => {
                assert(segs.drop_first()[t - 1] == segs[t]);
                lemma_field_segs_any_bad(c2, segs.drop_first(), t - 1);
            },
            None => {
            },
        }
    }
}

/// An argument and the segment it was parsed from make the same step.
proof fn lemma_field_arg_seg_agree(c: FieldConfig, seg: Seq<AttrToken>, arg: AttrArg)
    requires
        crate::attr::spec_seg_ok(seg),
        crate::attr::spec_arg_matches(seg, arg),
    ensures
        spec_field_meta(c, arg) == spec_field_seg(c, seg),
{
}

} // verus!
