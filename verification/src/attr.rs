//! The argument language of configuration attributes.
//!
//! The arguments inside a configuration attribute such as
//! `yoetz(key_enum(derive(Debug)))` form a comma separated list; each
//! argument is a flag `name`, a nullification `!name`, a key-value
//! `name = value`, or a nested attribute `name(...)`.  The arguments are
//! parsed here from a plain model of the attribute's token trees.

use vstd::prelude::*;

use crate::schema::SchemaError;

verus! {

/// The delimiter of a token group.
#[derive(Clone, Copy, Debug, PartialEq, Eq, Structural)]
pub enum Delimiter {
    /// `( ... )`
    Parenthesis,
    /// `{ ... }`
    Brace,
    /// `[ ... ]`
    Bracket,
}

/// One token tree inside an attribute's argument list.
#[derive(Debug, PartialEq, Eq)]
pub enum AttrToken {
    /// A word: an identifier or keyword.
    Ident(String),
    /// A single punctuation character.
    Punct(char),
    /// A literal, carried as its source text.
    Literal(String),
    /// A delimited group of token trees.
    Group(Delimiter, Vec<AttrToken>),
}

/// One parsed attribute argument.
#[derive(Debug, PartialEq, Eq)]
pub enum AttrArg {
    /// A bare name: `name`.
    Flag(String),
    /// A setting with a value: `name = value`.
    KeyValue(KeyValue),
    /// A nested attribute: `name(...)`.
    Sub(SubAttr),
    /// A nullification: `!name`.
    Not {
        /// The nullified name.
        name: String,
    },
}

/// A `name = value` attribute argument; the value keeps its tokens.
#[derive(Debug, PartialEq, Eq)]
pub struct KeyValue {
    /// The setting's name.
    pub name: String,
    /// The value's tokens, up to the end of the argument.
    pub value: Vec<AttrToken>,
}

/// A `name(...)` attribute argument; the arguments inside the parentheses
/// keep their tokens and are parsed on demand.
#[derive(Debug, PartialEq, Eq)]
pub struct SubAttr {
    /// The nested attribute's name.
    pub name: String,
    /// The tokens between the parentheses.
    pub args: Vec<AttrToken>,
}

/// Whether a token is the comma that separates attribute arguments.
pub open spec fn spec_is_comma(t: AttrToken) -> bool {
    t matches AttrToken::Punct(c) && c == ','
}

/// The comma separated segments of an argument list.  A trailing comma ends
/// the last segment; an empty list has no segments.
pub open spec fn spec_split_args(toks: Seq<AttrToken>) -> Seq<Seq<AttrToken>>
    decreases toks.len(),
{
    if toks.len() == 0 {
        Seq::empty()
    } else if spec_is_comma(toks[0]) {
        seq![Seq::<AttrToken>::empty()] + spec_split_args(toks.drop_first())
    } else {
        let r = spec_split_args(toks.drop_first());
        if r.len() == 0 {
            seq![seq![toks[0]]]
        } else {
            seq![seq![toks[0]] + r[0]] + r.drop_first()
        }
    }
}

/// Whether one segment has the shape of some attribute argument.
pub open spec fn spec_seg_ok(seg: Seq<AttrToken>) -> bool {
    ||| (seg.len() == 1 && seg[0] is Ident)
    ||| (seg.len() == 2 && spec_is_punct(seg[0], '!') && seg[1] is Ident)
    ||| (seg.len() == 2 && seg[0] is Ident && (seg[1] matches AttrToken::Group(
        d,
        _,
    ) && d == Delimiter::Parenthesis))
    ||| (seg.len() >= 3 && seg[0] is Ident && spec_is_punct(seg[1], '='))
}

/// Whether a token is the given punctuation character.
pub open spec fn spec_is_punct(t: AttrToken, c: char) -> bool {
    t matches AttrToken::Punct(p) && p == c
}

/// Whether every comma separated segment of an argument list has the
/// shape of an attribute argument, so that the list parses.
pub open spec fn spec_args_ok(toks: Seq<AttrToken>) -> bool {
    forall|t: int|
        0 <= t < spec_split_args(toks).len() ==> spec_seg_ok(#[trigger] spec_split_args(toks)[t])
}

/// Whether one segment parses to the given attribute argument.
pub open spec fn spec_arg_matches(seg: Seq<AttrToken>, arg: AttrArg) -> bool {
    match arg {
        AttrArg::Flag(name) => seg.len() == 1 && (seg[0] matches AttrToken::Ident(s) && s@
            == name@),
        AttrArg::Not { name } => seg.len() == 2 && spec_is_punct(seg[0], '!') && (seg[1]
            matches AttrToken::Ident(s) && s@ == name@),
        AttrArg::Sub(sub) => seg.len() == 2 && (seg[0] matches AttrToken::Ident(s) && s@
            == sub.name@) && (seg[1] matches AttrToken::Group(d, g) && d == Delimiter::Parenthesis
            && g@ == sub.args@),
        AttrArg::KeyValue(kv) => seg.len() >= 3 && (seg[0] matches AttrToken::Ident(s) && s@
            == kv.name@) && spec_is_punct(seg[1], '=') && kv.value@ == seg.skip(2),
    }
}

/// Splitting at the first comma: scanning past `i` comma-free tokens either
/// exhausts the list (one final segment, or none when the list is empty) or
/// stops at a comma, whose segment is the prefix before it.
proof fn lemma_split_at_comma(toks: Seq<AttrToken>, i: int)
    requires
        0 <= i <= toks.len(),
        forall|t: int| 0 <= t < i ==> !spec_is_comma(#[trigger] toks[t]),
        i < toks.len() ==> spec_is_comma(toks[i]),
    ensures
        i == toks.len() ==> spec_split_args(toks) == if toks.len() == 0 {
            Seq::<Seq<AttrToken>>::empty()
        } else {
            seq![toks]
        },
        i < toks.len() ==> spec_split_args(toks) == seq![toks.take(i)] + spec_split_args(
            toks.skip(i + 1),
        ),
    decreases i,
{
    if i == 0 {
        if 0 < toks.len() {
            assert(toks.take(0) =~= Seq::<AttrToken>::empty());
            assert(toks.skip(1) =~= toks.drop_first());
            assert(spec_split_args(toks) =~= seq![toks.take(0)] + spec_split_args(toks.skip(1)));
        }
    } else {
        let rest = toks.drop_first();
        assert forall|t: int| 0 <= t < i - 1 implies !spec_is_comma(#[trigger] rest[t]) by {
            assert(rest[t] == toks[t + 1]);
        }
        lemma_split_at_comma(rest, i - 1);
        let r = spec_split_args(rest);
        if i == toks.len() {
            if rest.len() == 0 {
                assert(spec_split_args(toks) =~= seq![seq![toks[0]]]);
                assert(seq![toks[0]] =~= toks);
            } else {
                assert(r == seq![rest]);
                assert(seq![toks[0]] + rest =~= toks);
                assert(spec_split_args(toks) =~= seq![toks]);
            }
        } else {
            assert(r == seq![rest.take(i - 1)] + spec_split_args(rest.skip(i)));
            assert(r.len() > 0);
            assert(r[0] == rest.take(i - 1));
            assert(seq![toks[0]] + rest.take(i - 1) =~= toks.take(i));
            assert(rest.skip(i) =~= toks.skip(i + 1));
            assert(r.drop_first() =~= spec_split_args(toks.skip(i + 1)));
            assert(spec_split_args(toks) =~= seq![toks.take(i)] + spec_split_args(toks.skip(i + 1)));
        }
    }
}

/// Classify one comma-free segment as an attribute argument.
fn classify_segment(seg: Vec<AttrToken>) -> (r: Result<AttrArg, SchemaError>)
    ensures
        r matches Ok(arg) ==> spec_arg_matches(seg@, arg),
        r is Ok <==> spec_seg_ok(seg@),
        r matches Err(e) ==> e == SchemaError::MalformedArg,
{
    let ghost seg0 = seg@;
    let mut seg = seg;
    if seg.len() == 1 {
        match seg.remove(0) {
            AttrToken::Ident(s) => Ok(AttrArg::Flag(s)),
            _ => Err(SchemaError::MalformedArg),
        }
    } else if seg.len() == 2 {
        let t0 = seg.remove(0);
        let t1 = seg.remove(0);
        match (t0, t1) {
            (AttrToken::Punct(c), AttrToken::Ident(s)) => {
                if c == '!' {
                    Ok(AttrArg::Not { name: s })
                } else {
                    Err(SchemaError::MalformedArg)
                }
            },
            (AttrToken::Ident(s), AttrToken::Group(d, g)) => {
                if d == Delimiter::Parenthesis {
                    Ok(AttrArg::Sub(SubAttr { name: s, args: g }))
                } else {
                    Err(SchemaError::MalformedArg)
                }
            },
            _ => Err(SchemaError::MalformedArg),
        }
    } else if seg.len() >= 3 {
        let t0 = seg.remove(0);
        let t1 = seg.remove(0);
        match (t0, t1) {
            (AttrToken::Ident(s), AttrToken::Punct(c)) => {
                if c == '=' {
                    proof {
                        assert(seg@ =~= seg0.skip(2));
                    }
                    Ok(AttrArg::KeyValue(KeyValue { name: s, value: seg }))
                } else {
                    Err(SchemaError::MalformedArg)
                }
            },
            _ => Err(SchemaError::MalformedArg),
        }
    } else {
        Err(SchemaError::MalformedArg)
    }
}

/// Parse a comma separated attribute argument list from its tokens.
///
/// Succeeds exactly when every comma separated segment has the shape of an
/// argument (`name`, `!name`, `name = value` or `name(...)`); the result
/// then holds the arguments in order.
#[verifier::loop_isolation(false)]
pub fn parse_attr_args(tokens: Vec<AttrToken>) -> (r: Result<Vec<AttrArg>, SchemaError>)
    ensures
        r matches Ok(args) ==> {
            let segs = spec_split_args(tokens@);
            &&& args@.len() == segs.len()
            &&& forall|t: int| 0 <= t < segs.len() ==> spec_arg_matches(#[trigger] segs[t], args@[t])
        },
        r is Ok <==> spec_args_ok(tokens@),
        r matches Err(e) ==> e == SchemaError::MalformedArg,
{
    let ghost toks_all = tokens@;
    let ghost segs = spec_split_args(toks_all);
    let mut tokens = tokens;
    let mut args: Vec<AttrArg> = Vec::new();
    while tokens.len() > 0
        invariant
            segs.skip(args@.len() as int) == spec_split_args(tokens@),
            args@.len() <= segs.len(),
            forall|t: int| 0 <= t < args@.len() ==> spec_arg_matches(#[trigger] segs[t], args@[t]),
            forall|t: int| 0 <= t < args@.len() ==> spec_seg_ok(#[trigger] segs[t]),
        decreases tokens.len(),
    {
        let ghost toks0 = tokens@;
        let mut seg: Vec<AttrToken> = Vec::new();
        let mut saw_comma = false;
        while tokens.len() > 0 && !saw_comma
            invariant
                seg@.len() <= toks0.len(),
                !saw_comma ==> {
                    &&& seg@ =~= toks0.take(seg@.len() as int)
                    &&& tokens@ =~= toks0.skip(seg@.len() as int)
                    &&& forall|t: int| 0 <= t < seg@.len() ==> !spec_is_comma(#[trigger] toks0[t])
                },
                saw_comma ==> {
                    &&& (seg@.len() as int) < toks0.len()
                    &&& seg@ =~= toks0.take(seg@.len() as int)
                    &&& tokens@ =~= toks0.skip(seg@.len() as int + 1)
                    &&& forall|t: int| 0 <= t < seg@.len() ==> !spec_is_comma(#[trigger] toks0[t])
                    &&& spec_is_comma(toks0[seg@.len() as int])
                },
            decreases tokens.len(),
        {
            let t = tokens.remove(0);
            let comma = match &t {
                AttrToken::Punct(c) => *c == ',',
                _ => false,
            };
            if comma {
                saw_comma = true;
            } else {
                seg.push(t);
            }
        }
        proof {
            if saw_comma {
                lemma_split_at_comma(toks0, seg@.len() as int);
            } else {
                lemma_split_at_comma(toks0, toks0.len() as int);
                assert(seg@ =~= toks0);
                assert(tokens@ =~= Seq::<AttrToken>::empty());
            }
            assert(spec_split_args(toks0)[0] == seg@);
            assert(spec_split_args(toks0).drop_first() =~= spec_split_args(tokens@));
            assert(segs[args@.len() as int] == seg@);
        }
        match classify_segment(seg) {
            Ok(arg) => {
                args.push(arg);
                proof {
                    assert(segs.skip(args@.len() as int) =~= spec_split_args(tokens@));
                }
            },
            Err(e) => {
                proof {
                    assert(spec_split_args(toks0).len() >= 1);
                    assert(segs.len() - args@.len() == spec_split_args(toks0).len());
                    assert(!spec_seg_ok(spec_split_args(toks_all)[args@.len() as int]));
                    assert(!spec_args_ok(toks_all));
                }
                return Err(e);
            },
        }
    }
    proof {
        assert(segs.skip(args@.len() as int) =~= Seq::<Seq<AttrToken>>::empty());
        assert(segs.len() == args@.len());
        assert forall|t: int|
            0 <= t < spec_split_args(toks_all).len() implies spec_seg_ok(
            #[trigger] spec_split_args(toks_all)[t],
        ) by {
            assert(spec_seg_ok(segs[t]));
        }
        assert forall|t: int|
            0 <= t < spec_split_args(toks_all).len() implies spec_arg_matches(
            #[trigger] spec_split_args(toks_all)[t],
            args@[t],
        ) by {
            assert(spec_arg_matches(segs[t], args@[t]));
        }
    }
    Ok(args)
}

impl AttrArg {
    /// The view of the argument's name.
    pub open spec fn name_spec(&self) -> Seq<char> {
        match self {
            AttrArg::Flag(name) => name@,
            AttrArg::KeyValue(kv) => kv.name@,
            AttrArg::Sub(sub) => sub.name@,
            AttrArg::Not { name } => name@,
        }
    }

    /// The argument's name.
    pub fn name(&self) -> (r: &String)
        ensures
            r@ == self.name_spec(),
    {
        match self {
            AttrArg::Flag(name) => name,
            AttrArg::KeyValue(KeyValue { name, .. }) => name,
            AttrArg::Sub(SubAttr { name, .. }) => name,
            AttrArg::Not { name } => name,
        }
    }

    /// Whether an error says that this argument's form is not supported for
    /// its name.
    pub open spec fn is_incorrect_type_error(&self, e: SchemaError) -> bool {
        match self {
            AttrArg::Flag(name) => e matches SchemaError::NotSupportedAsFlag { name: n } && n@
                == name@,
            AttrArg::KeyValue(kv) => e matches SchemaError::NotSupportedAsKeyValue { name: n } && n@
                == kv.name@,
            AttrArg::Sub(sub) => e matches SchemaError::NotSupportedAsNestedAttribute { name: n }
                && n@ == sub.name@,
            AttrArg::Not { name } => e matches SchemaError::CannotBeNullified { name: n } && n@
                == name@,
        }
    }

    /// The error for an argument whose form its name does not support.
    pub fn incorrect_type(&self) -> (r: SchemaError)
        ensures
            self.is_incorrect_type_error(r),
    {
        match self {
            AttrArg::Flag(name) => SchemaError::NotSupportedAsFlag { name: name.clone() },
            AttrArg::KeyValue(KeyValue { name, .. }) => SchemaError::NotSupportedAsKeyValue {
                name: name.clone(),
            },
            AttrArg::Sub(SubAttr { name, .. }) => SchemaError::NotSupportedAsNestedAttribute {
                name: name.clone(),
            },
            AttrArg::Not { name } => SchemaError::CannotBeNullified { name: name.clone() },
        }
    }

    /// The error for an argument whose name no setting answers to.
    pub fn unknown_name(&self) -> (r: SchemaError)
        ensures
            r matches SchemaError::UnknownParameter { name } && name@ == self.name_spec(),
    {
        SchemaError::UnknownParameter { name: self.name().clone() }
    }

    /// This argument as a flag, or the incorrect-type error.
    pub fn flag(self) -> (r: Result<String, SchemaError>)
        ensures
            match self {
                AttrArg::Flag(name) => r == Ok::<String, SchemaError>(name),
                _ => r matches Err(e) && self.is_incorrect_type_error(e),
            },
    {
        if let AttrArg::Flag(name) = self {
            Ok(name)
        } else {
            Err(self.incorrect_type())
        }
    }

    /// This argument as a key-value, or the incorrect-type error.
    pub fn key_value(self) -> (r: Result<KeyValue, SchemaError>)
        ensures
            match self {
                AttrArg::KeyValue(kv) => r == Ok::<KeyValue, SchemaError>(kv),
                _ => r matches Err(e) && self.is_incorrect_type_error(e),
            },
    {
        if let AttrArg::KeyValue(kv) = self {
            Ok(kv)
        } else {
            Err(self.incorrect_type())
        }
    }

    /// This argument as a key-value, or nothing for a nullification, or the
    /// incorrect-type error.
    pub fn key_value_or_not(self) -> (r: Result<Option<KeyValue>, SchemaError>)
        ensures
            match self {
                AttrArg::KeyValue(kv) => r == Ok::<Option<KeyValue>, SchemaError>(Some(kv)),
                AttrArg::Not { .. } => r == Ok::<Option<KeyValue>, SchemaError>(None),
                _ => r matches Err(e) && self.is_incorrect_type_error(e),
            },
    {
        match self {
            AttrArg::KeyValue(kv) => Ok(Some(kv)),
            AttrArg::Not { .. } => Ok(None),
            _ => Err(self.incorrect_type()),
        }
    }

    /// This argument as a nested attribute, or the incorrect-type error.
    pub fn sub_attr(self) -> (r: Result<SubAttr, SchemaError>)
        ensures
            match self {
                AttrArg::Sub(sub) => r == Ok::<SubAttr, SchemaError>(sub),
                _ => r matches Err(e) && self.is_incorrect_type_error(e),
            },
    {
        if let AttrArg::Sub(sub) = self {
            Ok(sub)
        } else {
            Err(self.incorrect_type())
        }
    }

    /// Apply this argument to an optional flag slot: a flag sets it when it
    /// is unset and fails when it is already set; a nullification clears it;
    /// any other form is the incorrect-type error.
    pub fn apply_flag_to_field(self, field: &mut Option<String>, caption: &str) -> (r: Result<
        (),
        SchemaError,
    >)
        ensures
            match self {
                AttrArg::Flag(name) => {
                    if *old(field) is None {
                        r is Ok && *final(field) == Some(name)
                    } else {
                        (r matches Err(e) && e matches SchemaError::AlreadySet { caption: c } && c@
                            == caption@) && *final(field) == *old(field)
                    }
                },
                AttrArg::Not { .. } => r is Ok && *final(field) is None,
                _ => (r matches Err(e) && self.is_incorrect_type_error(e)) && *final(field) == *old(
                    field,
                ),
            },
    {
        match self {
            AttrArg::Flag(name) => {
                if field.is_none() {
                    *field = Some(name);
                    Ok(())
                } else {
                    Err(SchemaError::AlreadySet { caption: caption.to_owned() })
                }
            },
            AttrArg::Not { .. } => {
                *field = None;
                Ok(())
            },
            arg => Err(arg.incorrect_type()),
        }
    }
}

impl SubAttr {
    /// Parse the nested attribute's own argument list.
    pub fn args(self) -> (r: Result<Vec<AttrArg>, SchemaError>)
        ensures
            r matches Ok(args) ==> {
                let segs = spec_split_args(self.args@);
                &&& args@.len() == segs.len()
                &&& forall|t: int|
                    0 <= t < segs.len() ==> spec_arg_matches(#[trigger] segs[t], args@[t])
            },
            r is Ok <==> spec_args_ok(self.args@),
    {
        parse_attr_args(self.args)
    }
}

} // verus!
