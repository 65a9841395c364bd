//! The schema compiler: reads a [`SuggestionInput`] and derives, for that
//! schema, the artifacts the decision engine needs - the identity (key)
//! enum, one behavior record (strategy) type per variant, the accessor over
//! all of them, and the per-variant content of the four transition
//! operations, bound together with the schema's role signature.
//!
//! The compiler has no runtime state; it is purely a transformation, and
//! every derivation is specified exactly: the names of the derived types,
//! which fields reach the key enum, and which fields each transition
//! touches.

use vstd::prelude::*;
use vstd::string::StringExecFns;

use crate::attr::{
    parse_attr_args, spec_arg_matches, spec_seg_ok, spec_split_args, AttrArg, AttrToken, Delimiter,
};
use crate::schema::{
    spec_field_ok, spec_field_role, spec_seg_name, AttrPayload, FieldConfig,
    FieldInput, FieldsInput, InputAttr, InputData, SchemaError, SuggestionInput, VariantInput,
};
use crate::schema::{FieldRole, SuggestionSignature};

verus! {

/// The configuration of one family of generated types: the extra derives to
/// put on them.
#[derive(Debug, PartialEq, Eq)]
pub struct GeneratedTypeConfig {
    /// The derive paths to apply, in the order given.
    pub derive: Vec<String>,
}

impl Default for GeneratedTypeConfig {
    /// No extra derives.
    fn default() -> (r: Self)
        ensures
            r.derive@.len() == 0,
    {
        GeneratedTypeConfig { derive: Vec::new() }
    }
}

/// Whether every segment is a bare word, as a plain derive path must be.
pub open spec fn spec_path_segs_ok(segs: Seq<Seq<AttrToken>>) -> bool {
    forall|t: int|
        0 <= t < segs.len() ==> (#[trigger] segs[t]).len() == 1 && segs[t][0] is Ident
}

/// The words of a path segment list.
pub open spec fn spec_path_names(segs: Seq<Seq<AttrToken>>) -> Seq<Seq<char>> {
    Seq::new(segs.len(), |t: int| spec_seg_name(segs[t]))
}

/// One argument applied to a generated type configuration: only
/// `derive(...)` with plain paths inside is accepted, and appends them.
pub open spec fn spec_gtc_meta(d: Seq<Seq<char>>, arg: AttrArg) -> Option<Seq<Seq<char>>> {
    if arg.name_spec() != "derive"@ {
        None
    } else {
        match arg {
            AttrArg::Sub(sub) => {
                let inner = spec_split_args(sub.args@);
                if spec_path_segs_ok(inner) {
                    Some(d + spec_path_names(inner))
                } else {
                    None
                }
            },
            _ => None,
        }
    }
}

/// Segment-level mirror of [`spec_gtc_meta`].
pub open spec fn spec_gtc_seg(d: Seq<Seq<char>>, seg: Seq<AttrToken>) -> Option<Seq<Seq<char>>> {
    if !spec_seg_ok(seg) {
        None
    } else if spec_seg_name(seg) != "derive"@ {
        None
    } else if !(seg.len() == 2 && seg[1] matches AttrToken::Group(
        Delimiter::Parenthesis,
        _,
    )) {
        None
    } else {
        let inner = spec_split_args(spec_group_tokens(seg[1]));
        if spec_path_segs_ok(inner) {
            Some(d + spec_path_names(inner))
        } else {
            None
        }
    }
}

/// The tokens inside a group token.
pub open spec fn spec_group_tokens(t: AttrToken) -> Seq<AttrToken> {
    match t {
        AttrToken::Group(_, g) => g@,
        _ => Seq::empty(),
    }
}

/// Segment-level fold of [`spec_gtc_seg`].
pub open spec fn spec_gtc_segs(d: Seq<Seq<char>>, segs: Seq<Seq<AttrToken>>) -> Option<
    Seq<Seq<char>>,
>
    decreases segs.len(),
{
    if segs.len() == 0 {
        Some(d)
    } else {
        match spec_gtc_seg(d, segs[0]) {
            Some(d2) => spec_gtc_segs(d2, segs.drop_first()),
            None => None,
        }
    }
}

/// An argument and the segment it was parsed from make the same step on a
/// generated type configuration.
proof fn lemma_gtc_arg_seg_agree(d: Seq<Seq<char>>, seg: Seq<AttrToken>, arg: AttrArg)
    requires
        spec_seg_ok(seg),
        spec_arg_matches(seg, arg),
    ensures
        spec_gtc_meta(d, arg) == spec_gtc_seg(d, seg),
{
}

/// A generated-type segment fold with a bad segment anywhere in it fails.
proof fn lemma_gtc_segs_any_bad(d: Seq<Seq<char>>, segs: Seq<Seq<AttrToken>>, t: int)
    requires
        0 <= t < segs.len(),
        !spec_seg_ok(segs[t]),
    ensures
        spec_gtc_segs(d, segs) is None,
    decreases t,
{
    if t > 0 {
        match spec_gtc_seg(d, segs[0]) {
            Some(d2) => {
                assert(segs.drop_first()[t - 1] == segs[t]);
                lemma_gtc_segs_any_bad(d2, segs.drop_first(), t - 1);
            },
            None => {
            },
        }
    }
}

impl GeneratedTypeConfig {
    /// Apply one attribute argument: only `derive(...)`, whose arguments
    /// must all be plain paths; they are appended to the derive list.
    #[verifier::loop_isolation(false)]
    pub fn apply_meta(&mut self, expr: AttrArg) -> (r: Result<(), SchemaError>)
        ensures
            match spec_gtc_meta(old(self).derive.deep_view(), expr) {
                Some(d2) => r is Ok && final(self).derive.deep_view() == d2,
                None => r is Err && *final(self) == *old(self),
            },
    {
        let is_derive = *expr.name() == "derive".to_owned();
        if !is_derive {
            return Err(expr.unknown_name());
        }
        let sub = match expr.sub_attr() {
            Ok(sub) => sub,
            Err(e) => {
                return Err(e);
            },
        };
        let ghost toks_v = sub.args@;
        let ghost segs = spec_split_args(toks_v);
        let mut args = match parse_attr_args(sub.args) {
            Ok(args) => args,
            Err(e) => {
                proof {
                    let t = choose|t: int| 0 <= t < segs.len() && !spec_seg_ok(segs[t]);
                    assert(!((#[trigger] segs[t]).len() == 1 && segs[t][0] is Ident));
                }
                return Err(e);
            },
        };
        let mut names: Vec<String> = Vec::new();
        while args.len() > 0
            invariant
                args@.len() <= segs.len(),
                names@.len() == segs.len() - args@.len(),
                forall|t: int|
                    0 <= t < args@.len() ==> spec_arg_matches(
                        #[trigger] segs[segs.len() - args@.len() + t],
                        args@[t],
                    ),
                forall|t: int| 0 <= t < segs.len() ==> spec_seg_ok(#[trigger] segs[t]),
                forall|t: int|
                    0 <= t < names@.len() ==> (#[trigger] segs[t]).len() == 1 && segs[t][0]
                        is Ident,
                forall|t: int|
                    0 <= t < names@.len() ==> names.deep_view()[t] == spec_seg_name(
                        #[trigger] segs[t],
                    ),
            decreases args.len(),
        {
            let ghost k = segs.len() - args@.len();
            let ghost args_pre = args@;
            let arg = args.remove(0);
            proof {
                assert(spec_arg_matches(segs[segs.len() - args_pre.len() + 0], args_pre[0]));
            }
            match arg {
                AttrArg::Flag(name) => {
                    names.push(name);
                },
                _ => {
                    proof {
                        assert(!((#[trigger] segs[k]).len() == 1 && segs[k][0] is Ident));
                    }
                    return Err(SchemaError::ExpectedPath);
                },
            }
            proof {
                assert(args@ =~= args_pre.drop_first());
                assert forall|t: int|
                    0 <= t < args@.len() implies spec_arg_matches(
                    #[trigger] segs[segs.len() - args@.len() + t],
                    args@[t],
                ) by {
                    assert(spec_arg_matches(
                        segs[segs.len() - args_pre.len() + (t + 1)],
                        args_pre[t + 1],
                    ));
                    assert(segs.len() - args_pre.len() + (t + 1) == segs.len() - args@.len() + t);
                }
            }
        }
        let ghost d0 = self.derive.deep_view();
        let mut k: usize = 0;
        let n = names.len();
        proof {
            assert(spec_path_segs_ok(segs));
        }
        while k < n
            invariant
                k <= n,
                n == names@.len(),
                names@.len() == segs.len(),
                forall|t: int|
                    0 <= t < names@.len() ==> names.deep_view()[t] == spec_seg_name(
                        #[trigger] segs[t],
                    ),
                self.derive.deep_view() =~= d0 + spec_path_names(segs).take(k as int),
            decreases n - k,
        {
            let name = names[k].clone();
            proof {
                assert(name@ == names.deep_view()[k as int]);
            }
            let ghost d_pre = self.derive.deep_view();
            let ghost v_pre = self.derive@;
            self.derive.push(name);
            k = k + 1;
            proof {
                let target = d0 + spec_path_names(segs).take(k as int);
                assert forall|t: int|
                    0 <= t < self.derive.deep_view().len() implies self.derive.deep_view()[t]
                    == target[t] by {
                    assert(self.derive.deep_view()[t] == self.derive@[t].deep_view());
                    if t < v_pre.len() {
                        assert(self.derive@[t] == v_pre[t]);
                        assert(d_pre[t] == v_pre[t].deep_view());
                        assert(d_pre[t] == (d0 + spec_path_names(segs).take(k - 1))[t]);
                        if t >= d0.len() {
                            assert((d0 + spec_path_names(segs).take(k - 1))[t] == spec_path_names(
                                segs,
                            )[t - d0.len()]);
                            assert(target[t] == spec_path_names(segs)[t - d0.len()]);
                        }
                    } else {
                        assert(self.derive@[t] == name);
                        assert(target[t] == spec_path_names(segs)[k - 1]);
                        assert(name@ == spec_seg_name(segs[k - 1]));
                    }
                }
                assert(self.derive.deep_view() =~= target);
            }
        }
        proof {
            assert(spec_path_names(segs).take(n as int) =~= spec_path_names(segs));
        }
        Ok(())
    }

    /// Apply a whole nested attribute: its argument list parsed and each
    /// argument applied in order.
    #[verifier::loop_isolation(false)]
    pub fn apply_sub_attr(&mut self, sub_attr: crate::attr::SubAttr) -> (r: Result<
        (),
        SchemaError,
    >)
        ensures
            match spec_gtc_segs(old(self).derive.deep_view(), spec_split_args(sub_attr.args@)) {
                Some(d2) => r is Ok && final(self).derive.deep_view() == d2,
                None => r is Err,
            },
    {
        let ghost toks_v = sub_attr.args@;
        let ghost segs = spec_split_args(toks_v);
        let ghost d_start = self.derive.deep_view();
        let mut args = match parse_attr_args(sub_attr.args) {
            Ok(args) => args,
            Err(e) => {
                proof {
                    let t = choose|t: int| 0 <= t < segs.len() && !spec_seg_ok(segs[t]);
                    lemma_gtc_segs_any_bad(d_start, segs, t);
                }
                return Err(e);
            },
        };
        proof {
            assert(segs.skip(0) =~= segs);
        }
        while args.len() > 0
            invariant
                args@.len() <= segs.len(),
                forall|t: int|
                    0 <= t < args@.len() ==> spec_arg_matches(
                        #[trigger] segs[segs.len() - args@.len() + t],
                        args@[t],
                    ),
                forall|t: int| 0 <= t < segs.len() ==> spec_seg_ok(#[trigger] segs[t]),
                spec_gtc_segs(d_start, segs) == spec_gtc_segs(
                    self.derive.deep_view(),
                    segs.skip(segs.len() - args@.len()),
                ),
            decreases args.len(),
        {
            let ghost k = segs.len() - args@.len();
            let ghost args_pre = args@;
            let arg = args.remove(0);
            proof {
                assert(spec_arg_matches(segs[segs.len() - args_pre.len() + 0], args_pre[0]));
                assert(segs.skip(k)[0] == segs[k]);
                lemma_gtc_arg_seg_agree(self.derive.deep_view(), segs[k], arg);
            }
            let ghost d_before = self.derive.deep_view();
            match self.apply_meta(arg) {
                Ok(()) => {},
                Err(e) => {
                    proof {
                        assert(spec_gtc_segs(d_before, segs.skip(k)) is None);
                    }
                    return Err(e);
                },
            }
            proof {
                assert(segs.skip(k).drop_first() =~= segs.skip(k + 1));
                assert(args@ =~= args_pre.drop_first());
                assert forall|t: int|
                    0 <= t < args@.len() implies spec_arg_matches(
                    #[trigger] segs[segs.len() - args@.len() + t],
                    args@[t],
                ) by {
                    assert(spec_arg_matches(
                        segs[segs.len() - args_pre.len() + (t + 1)],
                        args_pre[t + 1],
                    ));
                    assert(segs.len() - args_pre.len() + (t + 1) == segs.len() - args@.len() + t);
                }
            }
        }
        proof {
            assert(segs.skip(segs.len() as int) =~= Seq::<Seq<AttrToken>>::empty());
        }
        Ok(())
    }
}

/// The names and configurations of the types generated for one schema: the
/// key enum's and the omni query's names, derived from the union's name,
/// and the extra derives asked for on the generated types.
#[derive(Debug, PartialEq, Eq)]
pub struct SuggestionEnumData {
    /// The suggestion union's own name.
    pub name: String,
    /// The key enum's name: the union's name with a `Key` suffix.
    pub key_enum_name: String,
    /// The omni query's name: the union's name with an `OmniQuery` suffix.
    pub omni_query_name: String,
    /// The configuration of the generated key enum.
    pub key_enum_config: GeneratedTypeConfig,
    /// The configuration of the generated strategy structs.
    pub strategy_structs_config: GeneratedTypeConfig,
}

/// One argument applied to the union's configuration: a `key_enum(...)` or
/// `strategy_structs(...)` nested attribute configuring the generated
/// types.
pub open spec fn spec_enum_meta(kd: Seq<Seq<char>>, sd: Seq<Seq<char>>, arg: AttrArg) -> Option<
    (Seq<Seq<char>>, Seq<Seq<char>>),
> {
    if arg.name_spec() == "key_enum"@ {
        match arg {
            AttrArg::Sub(sub) => match spec_gtc_segs(kd, spec_split_args(sub.args@)) {
                Some(kd2) => Some((kd2, sd)),
                None => None,
            },
            _ => None,
        }
    } else if arg.name_spec() == "strategy_structs"@ {
        match arg {
            AttrArg::Sub(sub) => match spec_gtc_segs(sd, spec_split_args(sub.args@)) {
                Some(sd2) => Some((kd, sd2)),
                None => None,
            },
            _ => None,
        }
    } else {
        None
    }
}

/// Segment-level mirror of [`spec_enum_meta`].
pub open spec fn spec_enum_seg(kd: Seq<Seq<char>>, sd: Seq<Seq<char>>, seg: Seq<AttrToken>) -> Option<
    (Seq<Seq<char>>, Seq<Seq<char>>),
> {
    if !spec_seg_ok(seg) {
        None
    } else if !(seg.len() == 2 && seg[1] matches AttrToken::Group(Delimiter::Parenthesis, _)) {
        None
    } else if spec_seg_name(seg) == "key_enum"@ {
        match spec_gtc_segs(kd, spec_split_args(spec_group_tokens(seg[1]))) {
            Some(kd2) => Some((kd2, sd)),
            None => None,
        }
    } else if spec_seg_name(seg) == "strategy_structs"@ {
        match spec_gtc_segs(sd, spec_split_args(spec_group_tokens(seg[1]))) {
            Some(sd2) => Some((kd, sd2)),
            None => None,
        }
    } else {
        None
    }
}

/// An argument and the segment it was parsed from make the same step on the
/// union's configuration.
proof fn lemma_enum_arg_seg_agree(
    kd: Seq<Seq<char>>,
    sd: Seq<Seq<char>>,
    seg: Seq<AttrToken>,
    arg: AttrArg,
)
    requires
        spec_seg_ok(seg),
        spec_arg_matches(seg, arg),
    ensures
        spec_enum_meta(kd, sd, arg) == spec_enum_seg(kd, sd, seg),
{
}

/// Segment-level fold of [`spec_enum_seg`].
pub open spec fn spec_enum_segs(
    kd: Seq<Seq<char>>,
    sd: Seq<Seq<char>>,
    segs: Seq<Seq<AttrToken>>,
) -> Option<(Seq<Seq<char>>, Seq<Seq<char>>)>
    decreases segs.len(),
{
    if segs.len() == 0 {
        Some((kd, sd))
    } else {
        match spec_enum_seg(kd, sd, segs[0]) {
            Some((kd2, sd2)) => spec_enum_segs(kd2, sd2, segs.drop_first()),
            None => None,
        }
    }
}

/// An enum-configuration segment fold with a bad segment anywhere fails.
proof fn lemma_enum_segs_any_bad(
    kd: Seq<Seq<char>>,
    sd: Seq<Seq<char>>,
    segs: Seq<Seq<AttrToken>>,
    t: int,
)
    requires
        0 <= t < segs.len(),
        !spec_seg_ok(segs[t]),
    ensures
        spec_enum_segs(kd, sd, segs) is None,
    decreases t,
{
    if t > 0 {
        match spec_enum_seg(kd, sd, segs[0]) {
            Some((kd2, sd2)) => {
                assert(segs.drop_first()[t - 1] == segs[t]);
                lemma_enum_segs_any_bad(kd2, sd2, segs.drop_first(), t - 1);
            },
            None => {
            },
        }
    }
}

/// One whole attribute applied to the union's configuration.
pub open spec fn spec_enum_attr(
    kd: Seq<Seq<char>>,
    sd: Seq<Seq<char>>,
    attr: InputAttr,
) -> Option<(Seq<Seq<char>>, Seq<Seq<char>>)> {
    if attr.path@ != "yoetz"@ {
        Some((kd, sd))
    } else {
        match attr.payload {
            AttrPayload::List(toks) => if toks@.len() == 0 {
                None
            } else {
                spec_enum_segs(kd, sd, spec_split_args(toks@))
            },
            AttrPayload::Other => None,
        }
    }
}

/// The union's attributes applied in order.
pub open spec fn spec_enum_attrs(
    kd: Seq<Seq<char>>,
    sd: Seq<Seq<char>>,
    attrs: Seq<InputAttr>,
) -> Option<(Seq<Seq<char>>, Seq<Seq<char>>)>
    decreases attrs.len(),
{
    if attrs.len() == 0 {
        Some((kd, sd))
    } else {
        match spec_enum_attr(kd, sd, attrs[0]) {
            Some((kd2, sd2)) => spec_enum_attrs(kd2, sd2, attrs.drop_first()),
            None => None,
        }
    }
}

impl SuggestionEnumData {
    /// Apply one attribute argument: `key_enum(...)` or
    /// `strategy_structs(...)`.
    pub fn apply_meta(&mut self, expr: AttrArg) -> (r: Result<(), SchemaError>)
        ensures
            final(self).name == old(self).name,
            final(self).key_enum_name == old(self).key_enum_name,
            final(self).omni_query_name == old(self).omni_query_name,
            match spec_enum_meta(
                old(self).key_enum_config.derive.deep_view(),
                old(self).strategy_structs_config.derive.deep_view(),
                expr,
            ) {
                Some((kd2, sd2)) => r is Ok && final(self).key_enum_config.derive.deep_view()
                    == kd2 && final(self).strategy_structs_config.derive.deep_view() == sd2,
                None => r is Err,
            },
    {
        let is_key_enum = *expr.name() == "key_enum".to_owned();
        let is_strategy = *expr.name() == "strategy_structs".to_owned();
        if is_key_enum {
            let sub = match expr.sub_attr() {
                Ok(sub) => sub,
                Err(e) => {
                    return Err(e);
                },
            };
            match self.key_enum_config.apply_sub_attr(sub) {
                Ok(()) => Ok(()),
                Err(e) => Err(e),
            }
        } else if is_strategy {
            let sub = match expr.sub_attr() {
                Ok(sub) => sub,
                Err(e) => {
                    return Err(e);
                },
            };
            match self.strategy_structs_config.apply_sub_attr(sub) {
                Ok(()) => Ok(()),
                Err(e) => Err(e),
            }
        } else {
            Err(expr.unknown_name())
        }
    }

    /// Apply one whole attribute on the union: nothing for a foreign path;
    /// for a `yoetz` attribute, its argument list parsed and applied.
    #[verifier::loop_isolation(false)]
    pub fn apply_attr(&mut self, attr: InputAttr) -> (r: Result<(), SchemaError>)
        ensures
            final(self).name == old(self).name,
            final(self).key_enum_name == old(self).key_enum_name,
            final(self).omni_query_name == old(self).omni_query_name,
            match spec_enum_attr(
                old(self).key_enum_config.derive.deep_view(),
                old(self).strategy_structs_config.derive.deep_view(),
                attr,
            ) {
                Some((kd2, sd2)) => r is Ok && final(self).key_enum_config.derive.deep_view()
                    == kd2 && final(self).strategy_structs_config.derive.deep_view() == sd2,
                None => r is Err,
            },
    {
        if !(attr.path == "yoetz".to_owned()) {
            return Ok(());
        }
        let toks = match attr.payload {
            AttrPayload::List(toks) => toks,
            AttrPayload::Other => {
                return Err(SchemaError::ExpectedList);
            },
        };
        if toks.len() == 0 {
            return Err(SchemaError::ExpectedList);
        }
        let ghost toks_v = toks@;
        let ghost segs = spec_split_args(toks_v);
        let ghost kd_start = self.key_enum_config.derive.deep_view();
        let ghost sd_start = self.strategy_structs_config.derive.deep_view();
        let mut args = match parse_attr_args(toks) {
            Ok(args) => args,
            Err(e) => {
                proof {
                    let t = choose|t: int| 0 <= t < segs.len() && !spec_seg_ok(segs[t]);
                    lemma_enum_segs_any_bad(kd_start, sd_start, segs, t);
                }
                return Err(e);
            },
        };
        proof {
            assert(segs.skip(0) =~= segs);
        }
        while args.len() > 0
            invariant
                args@.len() <= segs.len(),
                forall|t: int|
                    0 <= t < args@.len() ==> spec_arg_matches(
                        #[trigger] segs[segs.len() - args@.len() + t],
                        args@[t],
                    ),
                forall|t: int| 0 <= t < segs.len() ==> spec_seg_ok(#[trigger] segs[t]),
                self.name == old(self).name,
                self.key_enum_name == old(self).key_enum_name,
                self.omni_query_name == old(self).omni_query_name,
                spec_enum_segs(kd_start, sd_start, segs) == spec_enum_segs(
                    self.key_enum_config.derive.deep_view(),
                    self.strategy_structs_config.derive.deep_view(),
                    segs.skip(segs.len() - args@.len()),
                ),
            decreases args.len(),
        {
            let ghost k = segs.len() - args@.len();
            let ghost args_pre = args@;
            let arg = args.remove(0);
            proof {
                assert(spec_arg_matches(segs[segs.len() - args_pre.len() + 0], args_pre[0]));
                assert(segs.skip(k)[0] == segs[k]);
                lemma_enum_arg_seg_agree(
                    self.key_enum_config.derive.deep_view(),
                    self.strategy_structs_config.derive.deep_view(),
                    segs[k],
                    arg,
                );
            }
            let ghost kd_before = self.key_enum_config.derive.deep_view();
            let ghost sd_before = self.strategy_structs_config.derive.deep_view();
            match self.apply_meta(arg) {
                Ok(()) => {},
                Err(e) => {
                    proof {
                        assert(spec_enum_segs(kd_before, sd_before, segs.skip(k)) is None);
                    }
                    return Err(e);
                },
            }
            proof {
                assert(segs.skip(k).drop_first() =~= segs.skip(k + 1));
                assert(args@ =~= args_pre.drop_first());
                assert forall|t: int|
                    0 <= t < args@.len() implies spec_arg_matches(
                    #[trigger] segs[segs.len() - args@.len() + t],
                    args@[t],
                ) by {
                    assert(spec_arg_matches(
                        segs[segs.len() - args_pre.len() + (t + 1)],
                        args_pre[t + 1],
                    ));
                    assert(segs.len() - args_pre.len() + (t + 1) == segs.len() - args@.len() + t);
                }
            }
        }
        proof {
            assert(segs.skip(segs.len() as int) =~= Seq::<Seq<AttrToken>>::empty());
        }
        Ok(())
    }

    /// Read the union's configuration: the names of the generated types,
    /// derived from the union's name, and the settings of its `yoetz`
    /// attributes.
    #[verifier::loop_isolation(false)]
    pub fn new(name: String, attrs: Vec<InputAttr>) -> (r: Result<Self, SchemaError>)
        ensures
            r matches Ok(d) ==> {
                &&& d.name == name
                &&& d.key_enum_name@ == name@ + "Key"@
                &&& d.omni_query_name@ == name@ + "OmniQuery"@
                &&& spec_enum_attrs(Seq::empty(), Seq::empty(), attrs@) == Some(
                    (
                        d.key_enum_config.derive.deep_view(),
                        d.strategy_structs_config.derive.deep_view(),
                    ),
                )
            },
            r is Ok <==> spec_enum_attrs(Seq::empty(), Seq::empty(), attrs@) is Some,
    {
        let mut key_enum_name = name.clone();
        key_enum_name.append("Key");
        let mut omni_query_name = name.clone();
        omni_query_name.append("OmniQuery");
        let mut result = SuggestionEnumData {
            name,
            key_enum_name,
            omni_query_name,
            key_enum_config: GeneratedTypeConfig::default(),
            strategy_structs_config: GeneratedTypeConfig::default(),
        };
        let ghost attrs0 = attrs@;
        let mut attrs = attrs;
        proof {
            assert(result.key_enum_config.derive.deep_view() =~= Seq::<Seq<char>>::empty());
            assert(result.strategy_structs_config.derive.deep_view() =~= Seq::<Seq<char>>::empty());
        }
        while attrs.len() > 0
            invariant
                result.name == name,
                result.key_enum_name@ == name@ + "Key"@,
                result.omni_query_name@ == name@ + "OmniQuery"@,
                spec_enum_attrs(Seq::empty(), Seq::empty(), attrs0) == spec_enum_attrs(
                    result.key_enum_config.derive.deep_view(),
                    result.strategy_structs_config.derive.deep_view(),
                    attrs@,
                ),
            decreases attrs.len(),
        {
            let ghost attrs_pre = attrs@;
            let ghost kd_before = result.key_enum_config.derive.deep_view();
            let ghost sd_before = result.strategy_structs_config.derive.deep_view();
            let attr = attrs.remove(0);
            proof {
                assert(attrs@ =~= attrs_pre.drop_first());
            }
            match result.apply_attr(attr) {
                Ok(()) => {},
                Err(e) => {
                    proof {
                        assert(spec_enum_attrs(kd_before, sd_before, attrs_pre) is None);
                    }
                    return Err(e);
                },
            }
        }
        Ok(result)
    }
}

/// The fields of a variant, as a sequence; a unit variant has none.
pub open spec fn spec_fields_of(fields: FieldsInput) -> Seq<FieldInput> {
    match fields {
        FieldsInput::Unit => Seq::empty(),
        FieldsInput::Named(fs) => fs@,
        FieldsInput::Unnamed(fs) => fs@,
    }
}

/// The views of the fields' names, in declaration order.
pub open spec fn spec_names_of(fs: Seq<FieldInput>) -> Seq<Seq<char>> {
    Seq::new(fs.len(), |i: int| fs[i].name@)
}

/// Whether every field's attributes are valid and assign it a role.
pub open spec fn spec_fields_ok(fs: Seq<FieldInput>) -> bool {
    forall|i: int| 0 <= i < fs.len() ==> spec_field_ok(#[trigger] fs[i])
}

/// The roles a configuration sequence assigns, in order.
pub open spec fn spec_cfg_roles(cfgs: Seq<FieldConfig>) -> Seq<FieldRole> {
    Seq::new(cfgs.len(), |i: int| cfgs[i].role.unwrap())
}

/// The names of the fields holding the wanted role, in declaration order.
pub open spec fn spec_filter_names(
    names: Seq<Seq<char>>,
    roles: Seq<FieldRole>,
    want: FieldRole,
) -> Seq<Seq<char>>
    decreases roles.len(),
{
    if roles.len() == 0 {
        Seq::empty()
    } else {
        spec_filter_names(names, roles.drop_last(), want) + if roles.last() == want {
            seq![names[roles.len() - 1]]
        } else {
            Seq::empty()
        }
    }
}

/// One variant of the schema with its per-field role configuration and the
/// name of its generated strategy struct.
#[derive(Debug, PartialEq, Eq)]
pub struct SuggestionVariantData {
    /// The variant's name.
    pub name: String,
    /// The strategy struct's name: the union's name followed by the
    /// variant's.
    pub strategy_name: String,
    /// The variant's fields, attributes consumed.
    pub fields: FieldsInput,
    /// The role configuration of each field, in declaration order.
    pub fields_config: Vec<FieldConfig>,
}

/// What [`SuggestionVariantData::new`] builds from an input variant: the
/// names kept, the strategy name derived, and one role configuration per
/// field.
pub open spec fn spec_variant_built(
    parent_name: Seq<char>,
    variant: VariantInput,
    v: SuggestionVariantData,
) -> bool {
    let fs0 = spec_fields_of(variant.fields);
    let fs = spec_fields_of(v.fields);
    &&& v.name == variant.name
    &&& v.strategy_name@ == parent_name + variant.name@
    &&& (v.fields is Unit <==> variant.fields is Unit)
    &&& (v.fields is Named <==> variant.fields is Named)
    &&& (v.fields is Unnamed <==> variant.fields is Unnamed)
    &&& fs.len() == fs0.len()
    &&& forall|i: int| 0 <= i < fs.len() ==> (#[trigger] fs[i]).name == fs0[i].name
    &&& v.fields_config@.len() == fs0.len()
    &&& forall|i: int|
        0 <= i < fs0.len() ==> v.fields_config@[i] == (FieldConfig {
            role: spec_field_role(#[trigger] fs0[i]),
        })
}

impl SuggestionVariantData {
    /// Whether the variant data is coherent: one configuration per field,
    /// each with a role.
    pub open spec fn wf(&self) -> bool {
        &&& self.fields_config@.len() == spec_fields_of(self.fields).len()
        &&& forall|i: int|
            0 <= i < self.fields_config@.len() ==> (#[trigger] self.fields_config@[i]).role is Some
    }
}

/// Read the configurations of a field list, draining the fields'
/// attributes; fails when a field's attributes are invalid or assign no
/// role.
#[verifier::loop_isolation(false)]
fn configure_fields(fs: Vec<FieldInput>) -> (r: Result<
    (Vec<FieldInput>, Vec<FieldConfig>),
    SchemaError,
>)
    ensures
        r matches Ok((fs2, cfgs)) ==> {
            &&& fs2@.len() == fs@.len()
            &&& cfgs@.len() == fs@.len()
            &&& forall|i: int| 0 <= i < fs@.len() ==> (#[trigger] fs2@[i]).name == fs@[i].name
            &&& forall|i: int|
                0 <= i < fs@.len() ==> cfgs@[i] == (FieldConfig {
                    role: spec_field_role(#[trigger] fs@[i]),
                })
            &&& forall|i: int| 0 <= i < cfgs@.len() ==> (#[trigger] cfgs@[i]).role is Some
        },
        r is Ok <==> spec_fields_ok(fs@),
{
    let ghost fs0 = fs@;
    let mut fs = fs;
    let mut out: Vec<FieldInput> = Vec::new();
    let mut cfgs: Vec<FieldConfig> = Vec::new();
    while fs.len() > 0
        invariant
            out@.len() + fs@.len() == fs0.len(),
            cfgs@.len() == out@.len(),
            forall|t: int| 0 <= t < fs@.len() ==> #[trigger] fs@[t] == fs0[out@.len() + t],
            forall|i: int| 0 <= i < out@.len() ==> (#[trigger] out@[i]).name == fs0[i].name,
            forall|i: int|
                0 <= i < out@.len() ==> cfgs@[i] == (FieldConfig {
                    role: spec_field_role(#[trigger] fs0[i]),
                }),
            forall|i: int| 0 <= i < cfgs@.len() ==> (#[trigger] cfgs@[i]).role is Some,
            forall|i: int| 0 <= i < out@.len() ==> spec_field_ok(#[trigger] fs0[i]),
        decreases fs.len(),
    {
        let ghost fs_pre = fs@;
        let ghost done = out@.len();
        let mut field = fs.remove(0);
        proof {
            assert(fs@ =~= fs_pre.drop_first());
            assert(field == fs0[done as int]);
        }
        let cfg = match FieldConfig::new_for(&mut field) {
            Ok(cfg) => cfg,
            Err(e) => {
                proof {
                    assert(!spec_field_ok(fs0[done as int]));
                }
                return Err(e);
            },
        };
        out.push(field);
        cfgs.push(cfg);
        proof {
            assert forall|t: int| 0 <= t < fs@.len() implies #[trigger] fs@[t] == fs0[out@.len()
                + t] by {
                assert(fs_pre[t + 1] == fs0[done + 1 + t]);
            }
        }
    }
    Ok((out, cfgs))
}

impl SuggestionVariantData {
    /// Build the data for one variant: derive its strategy struct's name
    /// and read every field's role configuration.
    pub fn new(parent: &SuggestionEnumData, variant: VariantInput) -> (r: Result<
        Self,
        SchemaError,
    >)
        ensures
            r matches Ok(v) ==> spec_variant_built(parent.name@, variant, v) && v.wf(),
            r is Ok <==> spec_fields_ok(spec_fields_of(variant.fields)),
    {
        let mut strategy_name = parent.name.clone();
        strategy_name.append(variant.name.as_str());
        let VariantInput { name, fields } = variant;
        match fields {
            FieldsInput::Unit => Ok(SuggestionVariantData {
                name,
                strategy_name,
                fields: FieldsInput::Unit,
                fields_config: Vec::new(),
            }),
            FieldsInput::Named(fs) => {
                let (fs2, cfgs) = match configure_fields(fs) {
                    Ok(p) => p,
                    Err(e) => {
                        return Err(e);
                    },
                };
                Ok(SuggestionVariantData {
                    name,
                    strategy_name,
                    fields: FieldsInput::Named(fs2),
                    fields_config: cfgs,
                })
            },
            FieldsInput::Unnamed(fs) => {
                let (fs2, cfgs) = match configure_fields(fs) {
                    Ok(p) => p,
                    Err(e) => {
                        return Err(e);
                    },
                };
                Ok(SuggestionVariantData {
                    name,
                    strategy_name,
                    fields: FieldsInput::Unnamed(fs2),
                    fields_config: cfgs,
                })
            },
        }
    }
}

/// One variant of the generated key enum: the variant's name and its
/// `key`-role fields, in declaration order.
#[derive(Debug, PartialEq, Eq)]
pub struct KeyVariantDef {
    /// The variant's name.
    pub name: String,
    /// Whether the variant is a unit variant (no braces at all).
    pub unit: bool,
    /// The names of the variant's `key`-role fields.
    pub fields: Vec<String>,
}

/// The generated key enum: one variant per suggestion variant, holding the
/// `key`-role fields only.
#[derive(Debug, PartialEq, Eq)]
pub struct KeyEnumDef {
    /// The enum's name.
    pub name: String,
    /// The extra derives to apply, beside value equality and cloning.
    pub derives: Vec<String>,
    /// The variants, in declaration order.
    pub variants: Vec<KeyVariantDef>,
}

/// The generated accessor over all behavior records: one optional mutable
/// slot per variant, in declaration order, naming the strategy type it
/// references.
#[derive(Debug, PartialEq, Eq)]
pub struct OmniQueryDef {
    /// The accessor's name.
    pub name: String,
    /// Per variant, the strategy type the slot references.
    pub slots: Vec<String>,
}

/// The shape of a generated strategy struct.
#[derive(Clone, Copy, Debug, PartialEq, Eq, Structural)]
pub enum StrategyShape {
    /// A unit struct.
    Unit,
    /// A struct with named fields.
    Named,
    /// A tuple struct.
    Tuple,
}

/// One field of a generated strategy struct, with its role kept as
/// metadata.
#[derive(Debug, PartialEq, Eq)]
pub struct StrategyField {
    /// The field's name.
    pub name: String,
    /// The field's role.
    pub role: FieldRole,
}

/// One generated strategy struct: the behavior record type of one variant,
/// holding all of the variant's fields.
#[derive(Debug, PartialEq, Eq)]
pub struct StrategyDef {
    /// The struct's name: the union's name followed by the variant's.
    pub name: String,
    /// The extra derives to apply.
    pub derives: Vec<String>,
    /// The struct's shape.
    pub shape: StrategyShape,
    /// The struct's fields, in declaration order.
    pub fields: Vec<StrategyField>,
}

/// The generated `add` operation's content for one variant: which strategy
/// it inserts and from which fields, in order.
#[derive(Debug, PartialEq, Eq)]
pub struct AddArm {
    /// The strategy struct inserted.
    pub strategy: String,
    /// The fields copied into it: all of the variant's fields.
    pub field_names: Vec<String>,
}

/// The generated `patch` operation's content for one variant: which fields
/// it writes, in order - exactly the `input`-role fields.
#[derive(Debug, PartialEq, Eq)]
pub struct UpdateArm {
    /// The fields refreshed from the suggestion.
    pub input_fields: Vec<String>,
}

/// The generated trait implementation's content: the per-variant arms of
/// the four transition operations, and the schema's role signature that
/// drives them.
#[derive(Debug, PartialEq, Eq)]
pub struct TraitImplDef {
    /// Per variant, the key projection: the fields cloned into the key.
    pub key_arms: Vec<KeyVariantDef>,
    /// Per variant, the strategy removed by `remove`.
    pub remove_arms: Vec<String>,
    /// Per variant, what `add` inserts.
    pub add_arms: Vec<AddArm>,
    /// Per variant, what `patch` writes.
    pub update_arms: Vec<UpdateArm>,
    /// The schema's role signature.
    pub signature: SuggestionSignature,
}

/// Everything the schema compiler derives for one schema.
#[derive(Debug, PartialEq, Eq)]
pub struct SuggestionArtifacts {
    /// The key enum.
    pub key_enum: KeyEnumDef,
    /// The omni query.
    pub omni_query: OmniQueryDef,
    /// The content of the trait implementation.
    pub trait_impl: TraitImplDef,
    /// One strategy struct per variant.
    pub strategies: Vec<StrategyDef>,
}

/// Two name lists with the same elements have the same deep view.
proof fn lemma_string_vec_deep(v: Vec<String>, w: Vec<String>)
    requires
        v@ == w@,
    ensures
        v.deep_view() == w.deep_view(),
{
    assert forall|t: int| 0 <= t < v.deep_view().len() implies v.deep_view()[t]
        == w.deep_view()[t] by {
        assert(v@[t] == w@[t]);
    }
    assert(v.deep_view() =~= w.deep_view());
}

/// Push a clone of a name, keeping the deep view in step.
fn push_name(v: &mut Vec<String>, s: &String)
    ensures
        final(v)@.len() == old(v)@.len() + 1,
        final(v).deep_view() =~= old(v).deep_view().push(s@),
        final(v)@ =~= old(v)@.push(*s),
{
    let ghost d_pre = v.deep_view();
    v.push(s.clone());
    proof {
        assert forall|t: int| 0 <= t < v.deep_view().len() implies v.deep_view()[t]
            == d_pre.push(s@)[t] by {
            assert(v.deep_view()[t] == v@[t].deep_view());
            if t < d_pre.len() {
                assert(d_pre[t] == old(v)@[t].deep_view());
            }
        }
        assert(v.deep_view() =~= d_pre.push(s@));
    }
}

/// Clone a list of names.
fn clone_strings(v: &Vec<String>) -> (r: Vec<String>)
    ensures
        r@ =~= v@,
{
    let mut r: Vec<String> = Vec::new();
    let mut i: usize = 0;
    while i < v.len()
        invariant
            i <= v@.len(),
            r@ =~= v@.take(i as int),
        decreases v.len() - i,
    {
        r.push(v[i].clone());
        i += 1;
        proof {
            assert(r@ =~= v@.take(i as int));
        }
    }
    proof {
        assert(v@.take(v@.len() as int) =~= v@);
    }
    r
}

/// What one key-enum variant must hold for one schema variant: its name,
/// and its `key`-role field names - or that the schema variant is unit.
/// A tuple variant has no valid key-enum variant.
pub open spec fn spec_key_def_of(v: SuggestionVariantData, kv: KeyVariantDef) -> bool {
    match v.fields {
        FieldsInput::Named(fs) => {
            &&& kv.name == v.name
            &&& !kv.unit
            &&& kv.fields.deep_view() == spec_filter_names(
                spec_names_of(fs@),
                spec_cfg_roles(v.fields_config@),
                FieldRole::Key,
            )
        },
        FieldsInput::Unit => kv.name == v.name && kv.unit && kv.fields@.len() == 0,
        FieldsInput::Unnamed(_) => false,
    }
}

impl SuggestionVariantData {
    /// The names of this variant's fields holding the wanted role, in
    /// declaration order.
    #[verifier::loop_isolation(false)]
    fn filter_field_names(&self, fs: &Vec<FieldInput>, want: FieldRole) -> (r: Vec<String>)
        requires
            self.wf(),
            fs@ == spec_fields_of(self.fields),
        ensures
            r.deep_view() == spec_filter_names(
                spec_names_of(fs@),
                spec_cfg_roles(self.fields_config@),
                want,
            ),
    {
        let ghost names = spec_names_of(fs@);
        let ghost roles = spec_cfg_roles(self.fields_config@);
        let mut out: Vec<String> = Vec::new();
        let mut j: usize = 0;
        while j < self.fields_config.len()
            invariant
                j <= self.fields_config@.len(),
                out.deep_view() =~= spec_filter_names(names, roles.take(j as int), want),
            decreases self.fields_config.len() - j,
        {
            proof {
                assert(roles.take(j as int + 1).drop_last() =~= roles.take(j as int));
                assert(roles.take(j as int + 1).last() == roles[j as int]);
            }
            let role = match self.fields_config[j].role {
                Some(role) => role,
                None => {
                    proof {
                        assert(false);
                    }
                    FieldRole::Key
                },
            };
            if role == want {
                push_name(&mut out, &fs[j].name);
            }
            j += 1;
        }
        proof {
            assert(roles.take(roles.len() as int) =~= roles);
        }
        out
    }

    /// The key enum's variant for this schema variant: the variant's name
    /// with clones of its `key`-role fields; tuple variants are rejected.
    pub fn emit_key_enum_variant(&self) -> (r: Result<KeyVariantDef, SchemaError>)
        requires
            self.wf(),
        ensures
            r matches Ok(kv) ==> spec_key_def_of(*self, kv),
            r is Ok <==> !(self.fields is Unnamed),
            r matches Err(e) ==> e matches SchemaError::TupleVariant { variant } && variant@
                == self.name@,
    {
        match &self.fields {
            FieldsInput::Named(fs) => {
                let fields = self.filter_field_names(fs, FieldRole::Key);
                Ok(KeyVariantDef { name: self.name.clone(), unit: false, fields })
            },
            FieldsInput::Unit => Ok(
                KeyVariantDef { name: self.name.clone(), unit: true, fields: Vec::new() },
            ),
            FieldsInput::Unnamed(_) => Err(
                SchemaError::TupleVariant { variant: self.name.clone() },
            ),
        }
    }

    /// The strategy struct for this variant: all of the variant's fields,
    /// each with its role kept as metadata, under the configured derives.
    pub fn emit_strategy_code(&self, parent: &SuggestionEnumData) -> (r: StrategyDef)
        requires
            self.wf(),
        ensures
            r.name == self.strategy_name,
            r.derives@ == parent.strategy_structs_config.derive@,
            match self.fields {
                FieldsInput::Unit => r.shape == StrategyShape::Unit,
                FieldsInput::Named(_) => r.shape == StrategyShape::Named,
                FieldsInput::Unnamed(_) => r.shape == StrategyShape::Tuple,
            },
            ({
                let fs = spec_fields_of(self.fields);
                &&& r.fields@.len() == fs.len()
                &&& forall|i: int| 0 <= i < fs.len() ==> (#[trigger] r.fields@[i]).name == fs[i].name
                &&& forall|i: int|
                    0 <= i < fs.len() ==> Some((#[trigger] r.fields@[i]).role)
                        == self.fields_config@[i].role
            }),
    {
        let (shape, fs): (StrategyShape, &Vec<FieldInput>) = match &self.fields {
            FieldsInput::Unit => {
                let empty: Vec<StrategyField> = Vec::new();
                return StrategyDef {
                    name: self.strategy_name.clone(),
                    derives: clone_strings(&parent.strategy_structs_config.derive),
                    shape: StrategyShape::Unit,
                    fields: empty,
                };
            },
            FieldsInput::Named(fs) => (StrategyShape::Named, fs),
            FieldsInput::Unnamed(fs) => (StrategyShape::Tuple, fs),
        };
        let mut fields: Vec<StrategyField> = Vec::new();
        let mut j: usize = 0;
        while j < fs.len()
            invariant
                j <= fs@.len(),
                fs@ == spec_fields_of(self.fields),
                self.wf(),
                fields@.len() == j,
                forall|i: int| 0 <= i < j ==> (#[trigger] fields@[i]).name == fs@[i].name,
                forall|i: int|
                    0 <= i < j ==> Some((#[trigger] fields@[i]).role)
                        == self.fields_config@[i].role,
            decreases fs.len() - j,
        {
            let role = match self.fields_config[j].role {
                Some(role) => role,
                None => {
                    proof {
                        assert(false);
                    }
                    FieldRole::Key
                },
            };
            fields.push(StrategyField { name: fs[j].name.clone(), role });
            j += 1;
        }
        StrategyDef {
            name: self.strategy_name.clone(),
            derives: clone_strings(&parent.strategy_structs_config.derive),
            shape,
            fields,
        }
    }
}

/// Push a role list, keeping the deep view in step.
fn push_roles(v: &mut Vec<Vec<FieldRole>>, r: Vec<FieldRole>)
    ensures
        final(v)@.len() == old(v)@.len() + 1,
        final(v).deep_view() =~= old(v).deep_view().push(r@),
{
    let ghost d_pre = v.deep_view();
    let ghost rv = r@;
    v.push(r);
    proof {
        assert forall|t: int| 0 <= t < v.deep_view().len() implies v.deep_view()[t]
            == d_pre.push(rv)[t] by {
            assert(v.deep_view()[t] == v@[t].deep_view());
            if t < d_pre.len() {
                assert(d_pre[t] == old(v)@[t].deep_view());
            } else {
                assert(v@[t].deep_view() =~= rv);
            }
        }
        assert(v.deep_view() =~= d_pre.push(rv));
    }
}

impl SuggestionEnumData {
    /// The key enum for this schema: its derived name, the configured
    /// derives, and one variant per schema variant holding the `key`-role
    /// fields only; tuple variants are rejected.
    pub fn emit_key_enum_code(&self, variants: &Vec<SuggestionVariantData>) -> (r: Result<
        KeyEnumDef,
        SchemaError,
    >)
        requires
            forall|i: int| 0 <= i < variants@.len() ==> (#[trigger] variants@[i]).wf(),
        ensures
            r matches Ok(ke) ==> {
                &&& ke.name == self.key_enum_name
                &&& ke.derives@ == self.key_enum_config.derive@
                &&& ke.variants@.len() == variants@.len()
                &&& forall|i: int|
                    0 <= i < variants@.len() ==> spec_key_def_of(
                        #[trigger] variants@[i],
                        ke.variants@[i],
                    )
            },
            r is Ok <==> (forall|i: int|
                0 <= i < variants@.len() ==> !((#[trigger] variants@[i]).fields is Unnamed)),
    {
        let arms = match self.emit_key_method(variants) {
            Ok(arms) => arms,
            Err(e) => {
                return Err(e);
            },
        };
        Ok(
            KeyEnumDef {
                name: self.key_enum_name.clone(),
                derives: clone_strings(&self.key_enum_config.derive),
                variants: arms,
            },
        )
    }

    /// The key projection for each variant: the name and `key`-role fields
    /// the generated `key` method clones into the identity; tuple variants
    /// are rejected.
    #[verifier::loop_isolation(false)]
    pub fn emit_key_method(&self, variants: &Vec<SuggestionVariantData>) -> (r: Result<
        Vec<KeyVariantDef>,
        SchemaError,
    >)
        requires
            forall|i: int| 0 <= i < variants@.len() ==> (#[trigger] variants@[i]).wf(),
        ensures
            r matches Ok(arms) ==> {
                &&& arms@.len() == variants@.len()
                &&& forall|i: int|
                    0 <= i < variants@.len() ==> spec_key_def_of(
                        #[trigger] variants@[i],
                        arms@[i],
                    )
            },
            r is Ok <==> (forall|i: int|
                0 <= i < variants@.len() ==> !((#[trigger] variants@[i]).fields is Unnamed)),
    {
        let mut arms: Vec<KeyVariantDef> = Vec::new();
        let mut i: usize = 0;
        while i < variants.len()
            invariant
                i <= variants@.len(),
                arms@.len() == i,
                forall|t: int|
                    0 <= t < i ==> spec_key_def_of(#[trigger] variants@[t], arms@[t]),
                forall|t: int| 0 <= t < i ==> !((#[trigger] variants@[t]).fields is Unnamed),
            decreases variants.len() - i,
        {
            match variants[i].emit_key_enum_variant() {
                Ok(kv) => {
                    arms.push(kv);
                },
                Err(e) => {
                    return Err(e);
                },
            }
            i += 1;
        }
        Ok(arms)
    }

    /// The accessor over all behavior records: one slot per variant,
    /// referencing that variant's strategy type.
    #[verifier::loop_isolation(false)]
    pub fn emit_omni_query_code(&self, variants: &Vec<SuggestionVariantData>) -> (r: OmniQueryDef)
        ensures
            r.name == self.omni_query_name,
            r.slots@.len() == variants@.len(),
            forall|i: int|
                0 <= i < variants@.len() ==> r.slots@[i] == (#[trigger] variants@[i]).strategy_name,
    {
        let mut slots: Vec<String> = Vec::new();
        let mut i: usize = 0;
        while i < variants.len()
            invariant
                i <= variants@.len(),
                slots@.len() == i,
                forall|t: int| 0 <= t < i ==> slots@[t] == (#[trigger] variants@[t]).strategy_name,
            decreases variants.len() - i,
        {
            slots.push(variants[i].strategy_name.clone());
            i += 1;
        }
        OmniQueryDef { name: self.omni_query_name.clone(), slots }
    }

    /// Which strategy the generated `remove` takes off for each variant.
    #[verifier::loop_isolation(false)]
    fn emit_remove_components_method(&self, variants: &Vec<SuggestionVariantData>) -> (r: Vec<
        String,
    >)
        ensures
            r@.len() == variants@.len(),
            forall|i: int|
                0 <= i < variants@.len() ==> r@[i] == (#[trigger] variants@[i]).strategy_name,
    {
        let mut arms: Vec<String> = Vec::new();
        let mut i: usize = 0;
        while i < variants.len()
            invariant
                i <= variants@.len(),
                arms@.len() == i,
                forall|t: int| 0 <= t < i ==> arms@[t] == (#[trigger] variants@[t]).strategy_name,
            decreases variants.len() - i,
        {
            arms.push(variants[i].strategy_name.clone());
            i += 1;
        }
        arms
    }

    /// What the generated `add` inserts for each variant: its strategy,
    /// populated from all of the variant's fields; tuple variants are
    /// rejected.
    #[verifier::loop_isolation(false)]
    fn emit_add_components_method(&self, variants: &Vec<SuggestionVariantData>) -> (r: Result<
        Vec<AddArm>,
        SchemaError,
    >)
        requires
            forall|i: int| 0 <= i < variants@.len() ==> (#[trigger] variants@[i]).wf(),
        ensures
            r matches Ok(arms) ==> {
                &&& arms@.len() == variants@.len()
                &&& forall|i: int|
                    0 <= i < variants@.len() ==> {
                        let fs = spec_fields_of((#[trigger] variants@[i]).fields);
                        &&& arms@[i].strategy == variants@[i].strategy_name
                        &&& arms@[i].field_names.deep_view() == spec_names_of(fs)
                    }
            },
            r is Ok <==> (forall|i: int|
                0 <= i < variants@.len() ==> !((#[trigger] variants@[i]).fields is Unnamed)),
    {
        let mut arms: Vec<AddArm> = Vec::new();
        let mut i: usize = 0;
        while i < variants.len()
            invariant
                i <= variants@.len(),
                arms@.len() == i,
                forall|t: int|
                    0 <= t < i ==> {
                        let fs = spec_fields_of((#[trigger] variants@[t]).fields);
                        &&& arms@[t].strategy == variants@[t].strategy_name
                        &&& arms@[t].field_names.deep_view() == spec_names_of(fs)
                    },
                forall|t: int| 0 <= t < i ==> !((#[trigger] variants@[t]).fields is Unnamed),
            decreases variants.len() - i,
        {
            let fs: &Vec<FieldInput> = match &variants[i].fields {
                FieldsInput::Named(fs) => fs,
                FieldsInput::Unit => {
                    let empty: Vec<String> = Vec::new();
                    proof {
                        assert(empty.deep_view() =~= spec_names_of(
                            spec_fields_of(variants@[i as int].fields),
                        ));
                    }
                    arms.push(
                        AddArm {
                            strategy: variants[i].strategy_name.clone(),
                            field_names: empty,
                        },
                    );
                    i += 1;
                    continue ;
                },
                FieldsInput::Unnamed(_) => {
                    return Err(
                        SchemaError::TupleVariant { variant: variants[i].name.clone() },
                    );
                },
            };
            let mut names: Vec<String> = Vec::new();
            let mut j: usize = 0;
            while j < fs.len()
                invariant
                    j <= fs@.len(),
                    names.deep_view() =~= spec_names_of(fs@).take(j as int),
                decreases fs.len() - j,
            {
                push_name(&mut names, &fs[j].name);
                j += 1;
                proof {
                    assert(names.deep_view() =~= spec_names_of(fs@).take(j as int));
                }
            }
            proof {
                assert(spec_names_of(fs@).take(fs@.len() as int) =~= spec_names_of(fs@));
            }
            arms.push(AddArm { strategy: variants[i].strategy_name.clone(), field_names: names });
            i += 1;
        }
        Ok(arms)
    }

    /// Which fields the generated `patch` writes for each variant: exactly
    /// the `input`-role fields; tuple variants are rejected.
    #[verifier::loop_isolation(false)]
    fn emit_update_into_components_method(
        &self,
        variants: &Vec<SuggestionVariantData>,
    ) -> (r: Result<Vec<UpdateArm>, SchemaError>)
        requires
            forall|i: int| 0 <= i < variants@.len() ==> (#[trigger] variants@[i]).wf(),
        ensures
            r matches Ok(arms) ==> {
                &&& arms@.len() == variants@.len()
                &&& forall|i: int|
                    0 <= i < variants@.len() ==> (#[trigger] arms@[i]).input_fields.deep_view()
                        == spec_filter_names(
                        spec_names_of(spec_fields_of(variants@[i].fields)),
                        spec_cfg_roles(variants@[i].fields_config@),
                        FieldRole::Input,
                    )
            },
            r is Ok <==> (forall|i: int|
                0 <= i < variants@.len() ==> !((#[trigger] variants@[i]).fields is Unnamed)),
    {
        let mut arms: Vec<UpdateArm> = Vec::new();
        let mut i: usize = 0;
        while i < variants.len()
            invariant
                i <= variants@.len(),
                arms@.len() == i,
                forall|t: int|
                    0 <= t < i ==> (#[trigger] arms@[t]).input_fields.deep_view()
                        == spec_filter_names(
                        spec_names_of(spec_fields_of(variants@[t].fields)),
                        spec_cfg_roles(variants@[t].fields_config@),
                        FieldRole::Input,
                    ),
                forall|t: int| 0 <= t < i ==> !((#[trigger] variants@[t]).fields is Unnamed),
            decreases variants.len() - i,
        {
            proof {
                assert(variants@[i as int].wf());
            }
            match &variants[i].fields {
                FieldsInput::Named(fs) => {
                    let input_fields = variants[i].filter_field_names(fs, FieldRole::Input);
                    arms.push(UpdateArm { input_fields });
                },
                FieldsInput::Unit => {
                    let empty: Vec<String> = Vec::new();
                    proof {
                        let fs = spec_fields_of(variants@[i as int].fields);
                        let roles = spec_cfg_roles(variants@[i as int].fields_config@);
                        assert(roles.len() == 0);
                        assert(empty.deep_view() =~= spec_filter_names(
                            spec_names_of(fs),
                            roles,
                            FieldRole::Input,
                        ));
                    }
                    arms.push(UpdateArm { input_fields: empty });
                },
                FieldsInput::Unnamed(_) => {
                    return Err(
                        SchemaError::TupleVariant { variant: variants[i].name.clone() },
                    );
                },
            }
            i += 1;
        }
        Ok(arms)
    }

    /// The content of the whole generated trait implementation: the four
    /// operations' per-variant arms, bound together with the schema's role
    /// signature.
    #[verifier::loop_isolation(false)]
    pub fn emit_trait_impl(&self, variants: &Vec<SuggestionVariantData>) -> (r: Result<
        TraitImplDef,
        SchemaError,
    >)
        requires
            forall|i: int| 0 <= i < variants@.len() ==> (#[trigger] variants@[i]).wf(),
        ensures
            r matches Ok(ti) ==> {
                &&& ti.key_arms@.len() == variants@.len()
                &&& forall|i: int|
                    0 <= i < variants@.len() ==> spec_key_def_of(
                        #[trigger] variants@[i],
                        ti.key_arms@[i],
                    )
                &&& ti.remove_arms@.len() == variants@.len()
                &&& forall|i: int|
                    0 <= i < variants@.len() ==> ti.remove_arms@[i] == (
                    #[trigger] variants@[i]).strategy_name
                &&& ti.add_arms@.len() == variants@.len()
                &&& forall|i: int|
                    0 <= i < variants@.len() ==> {
                        let fs = spec_fields_of((#[trigger] variants@[i]).fields);
                        &&& ti.add_arms@[i].strategy == variants@[i].strategy_name
                        &&& ti.add_arms@[i].field_names.deep_view() == spec_names_of(fs)
                    }
                &&& ti.update_arms@.len() == variants@.len()
                &&& forall|i: int|
                    0 <= i < variants@.len() ==> (
                    #[trigger] ti.update_arms@[i]).input_fields.deep_view() == spec_filter_names(
                        spec_names_of(spec_fields_of(variants@[i].fields)),
                        spec_cfg_roles(variants@[i].fields_config@),
                        FieldRole::Input,
                    )
                &&& ti.signature@.len() == variants@.len()
                &&& forall|i: int|
                    0 <= i < variants@.len() ==> ti.signature@[i] == spec_cfg_roles(
                        (#[trigger] variants@[i]).fields_config@,
                    )
            },
            r is Ok <==> (forall|i: int|
                0 <= i < variants@.len() ==> !((#[trigger] variants@[i]).fields is Unnamed)),
    {
        let key_arms = match self.emit_key_method(variants) {
            Ok(a) => a,
            Err(e) => {
                return Err(e);
            },
        };
        let remove_arms = self.emit_remove_components_method(variants);
        let add_arms = match self.emit_add_components_method(variants) {
            Ok(a) => a,
            Err(e) => {
                return Err(e);
            },
        };
        let update_arms = match self.emit_update_into_components_method(variants) {
            Ok(a) => a,
            Err(e) => {
                return Err(e);
            },
        };
        let mut sig: Vec<Vec<FieldRole>> = Vec::new();
        let mut i: usize = 0;
        while i < variants.len()
            invariant
                i <= variants@.len(),
                sig@.len() == i,
                forall|t: int| 0 <= t < variants@.len() ==> (#[trigger] variants@[t]).wf(),
                sig.deep_view() =~= Seq::new(
                    i as nat,
                    |t: int| spec_cfg_roles(variants@[t].fields_config@),
                ),
            decreases variants.len() - i,
        {
            let cfgs: &Vec<FieldConfig> = &variants[i].fields_config;
            let mut roles: Vec<FieldRole> = Vec::new();
            let mut j: usize = 0;
            while j < cfgs.len()
                invariant
                    j <= cfgs@.len(),
                    cfgs@ == variants@[i as int].fields_config@,
                    forall|t: int| 0 <= t < cfgs@.len() ==> (#[trigger] cfgs@[t]).role is Some,
                    roles@ =~= spec_cfg_roles(cfgs@).take(j as int),
                decreases cfgs.len() - j,
            {
                let role = match cfgs[j].role {
                    Some(role) => role,
                    None => {
                        proof {
                            assert(false);
                        }
                        FieldRole::Key
                    },
                };
                roles.push(role);
                j += 1;
                proof {
                    assert(roles@ =~= spec_cfg_roles(cfgs@).take(j as int));
                }
            }
            proof {
                assert(spec_cfg_roles(cfgs@).take(cfgs@.len() as int) =~= spec_cfg_roles(cfgs@));
            }
            push_roles(&mut sig, roles);
            i += 1;
            proof {
                assert(sig.deep_view() =~= Seq::new(
                    i as nat,
                    |t: int| spec_cfg_roles(variants@[t].fields_config@),
                ));
            }
        }
        Ok(
            TraitImplDef {
                key_arms,
                remove_arms,
                add_arms,
                update_arms,
                signature: SuggestionSignature { variants: sig },
            },
        )
    }
}

/// The roles a variant's fields are assigned, in declaration order.
pub open spec fn spec_input_roles(fs: Seq<FieldInput>) -> Seq<FieldRole> {
    Seq::new(fs.len(), |i: int| spec_field_role(fs[i]).unwrap())
}

/// Whether the derive input is a valid suggestion schema: an enum whose
/// own attributes are valid, whose every field carries exactly one valid
/// role attribute, and which has no tuple variants.
pub open spec fn spec_valid_input(ast: SuggestionInput) -> bool {
    &&& ast.data is Enum
    &&& spec_enum_attrs(Seq::empty(), Seq::empty(), ast.attrs@) is Some
    &&& match ast.data {
        InputData::Enum(vs) => forall|i: int|
            0 <= i < vs@.len() ==> spec_fields_ok(spec_fields_of((#[trigger] vs@[i]).fields)) && !(
            vs@[i].fields is Unnamed),
        InputData::NotAnEnum => false,
    }
}

/// What a key-enum variant holds for one input variant: the variant's name
/// and its `key`-role fields, by the roles the input's attributes assign.
pub open spec fn spec_input_key_def(variant: VariantInput, kv: KeyVariantDef) -> bool {
    match variant.fields {
        FieldsInput::Named(fs) => {
            &&& kv.name == variant.name
            &&& !kv.unit
            &&& kv.fields.deep_view() == spec_filter_names(
                spec_names_of(fs@),
                spec_input_roles(fs@),
                FieldRole::Key,
            )
        },
        FieldsInput::Unit => kv.name == variant.name && kv.unit && kv.fields@.len() == 0,
        FieldsInput::Unnamed(_) => false,
    }
}

/// What the compiler promises of its artifacts, stated over the input
/// alone.
pub open spec fn spec_artifacts_of(
    ast: SuggestionInput,
    vs: Seq<VariantInput>,
    a: SuggestionArtifacts,
) -> bool {
    &&& a.key_enum.name@ == ast.name@ + "Key"@
    &&& a.omni_query.name@ == ast.name@ + "OmniQuery"@
    &&& (spec_enum_attrs(Seq::empty(), Seq::empty(), ast.attrs@) matches Some(p)
        && a.key_enum.derives.deep_view() == p.0 && forall|i: int|
        0 <= i < a.strategies@.len() ==> (#[trigger] a.strategies@[i]).derives.deep_view() == p.1)
    &&& a.key_enum.variants@.len() == vs.len()
    &&& forall|i: int|
        0 <= i < vs.len() ==> spec_input_key_def(#[trigger] vs[i], a.key_enum.variants@[i])
    &&& a.omni_query.slots@.len() == vs.len()
    &&& forall|i: int|
        0 <= i < vs.len() ==> a.omni_query.slots@[i]@ == ast.name@ + (#[trigger] vs[i]).name@
    &&& a.trait_impl.key_arms@.len() == vs.len()
    &&& forall|i: int|
        0 <= i < vs.len() ==> spec_input_key_def(#[trigger] vs[i], a.trait_impl.key_arms@[i])
    &&& a.trait_impl.remove_arms@.len() == vs.len()
    &&& forall|i: int|
        0 <= i < vs.len() ==> a.trait_impl.remove_arms@[i]@ == ast.name@ + (
        #[trigger] vs[i]).name@
    &&& a.trait_impl.add_arms@.len() == vs.len()
    &&& forall|i: int|
        0 <= i < vs.len() ==> {
            let fs = spec_fields_of((#[trigger] vs[i]).fields);
            &&& a.trait_impl.add_arms@[i].strategy@ == ast.name@ + vs[i].name@
            &&& a.trait_impl.add_arms@[i].field_names.deep_view() == spec_names_of(fs)
        }
    &&& a.trait_impl.update_arms@.len() == vs.len()
    &&& forall|i: int|
        0 <= i < vs.len() ==> {
            let fs = spec_fields_of((#[trigger] vs[i]).fields);
            a.trait_impl.update_arms@[i].input_fields.deep_view() == spec_filter_names(
                spec_names_of(fs),
                spec_input_roles(fs),
                FieldRole::Input,
            )
        }
    &&& a.trait_impl.signature@.len() == vs.len()
    &&& forall|i: int|
        0 <= i < vs.len() ==> a.trait_impl.signature@[i] == spec_input_roles(
            spec_fields_of((#[trigger] vs[i]).fields),
        )
    &&& a.strategies@.len() == vs.len()
    &&& forall|i: int|
        0 <= i < vs.len() ==> {
            let fs = spec_fields_of((#[trigger] vs[i]).fields);
            let sd = a.strategies@[i];
            &&& sd.name@ == ast.name@ + vs[i].name@
            &&& (match vs[i].fields {
                FieldsInput::Unit => sd.shape == StrategyShape::Unit,
                FieldsInput::Named(_) => sd.shape == StrategyShape::Named,
                FieldsInput::Unnamed(_) => sd.shape == StrategyShape::Tuple,
            })
            &&& sd.fields@.len() == fs.len()
            &&& (forall|j: int|
                0 <= j < fs.len() ==> (#[trigger] sd.fields@[j]).name@ == fs[j].name@)
            &&& (forall|j: int|
                0 <= j < fs.len() ==> Some((#[trigger] sd.fields@[j]).role) == spec_field_role(
                    fs[j],
                ))
        }
}

/// The names and roles the compiler works with are the same whether read
/// off the built variant data or off the input variant.
proof fn lemma_built_bridges(
    parent_name: Seq<char>,
    variant: VariantInput,
    v: SuggestionVariantData,
)
    requires
        spec_variant_built(parent_name, variant, v),
    ensures
        spec_names_of(spec_fields_of(v.fields)) == spec_names_of(spec_fields_of(variant.fields)),
        spec_cfg_roles(v.fields_config@) == spec_input_roles(spec_fields_of(variant.fields)),
{
    let fs = spec_fields_of(v.fields);
    let fs0 = spec_fields_of(variant.fields);
    assert forall|i: int| 0 <= i < fs.len() implies spec_names_of(fs)[i] == spec_names_of(
        fs0,
    )[i] by {
        assert(fs[i].name == fs0[i].name);
    }
    assert(spec_names_of(fs) =~= spec_names_of(fs0));
    assert forall|i: int| 0 <= i < fs0.len() implies spec_cfg_roles(v.fields_config@)[i]
        == spec_input_roles(fs0)[i] by {
        assert(v.fields_config@[i] == (FieldConfig { role: spec_field_role(fs0[i]) }));
    }
    assert(spec_cfg_roles(v.fields_config@) =~= spec_input_roles(fs0));
}

/// Compile a suggestion schema: validate the input and derive every
/// artifact the decision engine needs for it.
///
/// Succeeds exactly when the input is an enum, its own `yoetz` attributes
/// are valid, every variant field carries exactly one valid role, and no
/// variant is a tuple variant; the artifacts are then fully determined by
/// the input, as [`spec_artifacts_of`] states.
#[verifier::loop_isolation(false)]
pub fn impl_suggestion(ast: SuggestionInput) -> (r: Result<SuggestionArtifacts, SchemaError>)
    ensures
        r is Ok <==> spec_valid_input(ast),
        ast.data is NotAnEnum ==> r == Err::<SuggestionArtifacts, SchemaError>(
            SchemaError::NotAnEnum,
        ),
        r matches Ok(a) ==> (ast.data matches InputData::Enum(vs) ==> spec_artifacts_of(
            ast,
            vs@,
            a,
        )),
{
    let SuggestionInput { name, attrs, data } = ast;
    let vs: Vec<VariantInput> = match data {
        InputData::Enum(vs) => vs,
        InputData::NotAnEnum => {
            return Err(SchemaError::NotAnEnum);
        },
    };
    let ghost vs0 = vs@;
    let enum_data = match SuggestionEnumData::new(name, attrs) {
        Ok(d) => d,
        Err(e) => {
            return Err(e);
        },
    };
    let mut vs = vs;
    let mut variants: Vec<SuggestionVariantData> = Vec::new();
    while vs.len() > 0
        invariant
            variants@.len() + vs@.len() == vs0.len(),
            forall|t: int| 0 <= t < vs@.len() ==> #[trigger] vs@[t] == vs0[variants@.len() + t],
            forall|i: int|
                0 <= i < variants@.len() ==> spec_variant_built(
                    ast.name@,
                    vs0[i],
                    #[trigger] variants@[i],
                ),
            forall|i: int| 0 <= i < variants@.len() ==> (#[trigger] variants@[i]).wf(),
            forall|i: int|
                0 <= i < variants@.len() ==> spec_fields_ok(
                    spec_fields_of((#[trigger] vs0[i]).fields),
                ),
        decreases vs.len(),
    {
        let ghost vs_pre = vs@;
        let ghost done = variants@.len();
        let variant = vs.remove(0);
        proof {
            assert(variant == vs0[done as int]);
        }
        let v = match SuggestionVariantData::new(&enum_data, variant) {
            Ok(v) => v,
            Err(e) => {
                proof {
                    assert(!spec_fields_ok(spec_fields_of(vs0[done as int].fields)));
                }
                return Err(e);
            },
        };
        variants.push(v);
        proof {
            assert forall|t: int| 0 <= t < vs@.len() implies #[trigger] vs@[t] == vs0[variants@.len()
                + t] by {
                assert(vs_pre[t + 1] == vs0[done + 1 + t]);
            }
        }
    }
    let key_enum = match enum_data.emit_key_enum_code(&variants) {
        Ok(ke) => ke,
        Err(e) => {
            proof {
                let i = choose|i: int|
                    0 <= i < variants@.len() && (#[trigger] variants@[i]).fields is Unnamed;
                assert(vs0[i].fields is Unnamed);
            }
            return Err(e);
        },
    };
    let omni_query = enum_data.emit_omni_query_code(&variants);
    let trait_impl = match enum_data.emit_trait_impl(&variants) {
        Ok(ti) => ti,
        Err(e) => {
            proof {
                let i = choose|i: int|
                    0 <= i < variants@.len() && (#[trigger] variants@[i]).fields is Unnamed;
                assert(vs0[i].fields is Unnamed);
            }
            return Err(e);
        },
    };
    let mut strategies: Vec<StrategyDef> = Vec::new();
    let mut i: usize = 0;
    while i < variants.len()
        invariant
            i <= variants@.len(),
            strategies@.len() == i,
            forall|t: int|
                0 <= t < i ==> {
                    let v = #[trigger] variants@[t];
                    let sd = strategies@[t];
                    &&& sd.name == v.strategy_name
                    &&& sd.derives@ == enum_data.strategy_structs_config.derive@
                    &&& (match v.fields {
                        FieldsInput::Unit => sd.shape == StrategyShape::Unit,
                        FieldsInput::Named(_) => sd.shape == StrategyShape::Named,
                        FieldsInput::Unnamed(_) => sd.shape == StrategyShape::Tuple,
                    })
                    &&& sd.fields@.len() == spec_fields_of(v.fields).len()
                    &&& (forall|j: int|
                        0 <= j < spec_fields_of(v.fields).len() ==> (
                        #[trigger] sd.fields@[j]).name == spec_fields_of(v.fields)[j].name)
                    &&& (forall|j: int|
                        0 <= j < spec_fields_of(v.fields).len() ==> Some(
                            (#[trigger] sd.fields@[j]).role,
                        ) == v.fields_config@[j].role)
                },
        decreases variants.len() - i,
    {
        let sd = variants[i].emit_strategy_code(&enum_data);
        strategies.push(sd);
        i += 1;
    }
    let result = SuggestionArtifacts { key_enum, omni_query, trait_impl, strategies };
    proof {
        assert forall|i: int| 0 <= i < vs0.len() implies result.omni_query.slots@[i]@ == ast.name@
            + (#[trigger] vs0[i]).name@ && result.trait_impl.remove_arms@[i]@ == ast.name@
            + vs0[i].name@ && result.trait_impl.add_arms@[i].strategy@ == ast.name@ + vs0[i].name@
            && result.strategies@[i].name@ == ast.name@ + vs0[i].name@ by {
            assert(variants@[i].strategy_name@ == ast.name@ + vs0[i].name@);
        }
        assert forall|t: int|
            0 <= t < result.key_enum.derives.deep_view().len() implies result.key_enum.derives.deep_view()[t]
            == enum_data.key_enum_config.derive.deep_view()[t] by {
            assert(result.key_enum.derives@[t] == enum_data.key_enum_config.derive@[t]);
        }
        assert(result.key_enum.derives.deep_view() =~= enum_data.key_enum_config.derive.deep_view());
        assert forall|i: int|
            0 <= i < vs0.len() implies (#[trigger] result.strategies@[i]).derives.deep_view()
            == enum_data.strategy_structs_config.derive.deep_view() by {
            let v = variants@[i];
            assert(result.strategies@[i].derives@ == enum_data.strategy_structs_config.derive@);
            lemma_string_vec_deep(
                result.strategies@[i].derives,
                enum_data.strategy_structs_config.derive,
            );
        }
        assert forall|i: int| 0 <= i < vs0.len() implies !((#[trigger] vs0[i]).fields
            is Unnamed) by {
            assert(!((#[trigger] variants@[i]).fields is Unnamed));
        }
        assert forall|i: int| 0 <= i < vs0.len() implies spec_input_key_def(
            #[trigger] vs0[i],
            result.key_enum.variants@[i],
        ) && spec_input_key_def(vs0[i], result.trait_impl.key_arms@[i]) by {
            lemma_built_bridges(ast.name@, vs0[i], variants@[i]);
        }
        assert forall|i: int| 0 <= i < vs0.len() implies {
            let fs = spec_fields_of((#[trigger] vs0[i]).fields);
            result.trait_impl.update_arms@[i].input_fields.deep_view() == spec_filter_names(
                spec_names_of(fs),
                spec_input_roles(fs),
                FieldRole::Input,
            )
        } by {
            lemma_built_bridges(ast.name@, vs0[i], variants@[i]);
        }
        assert forall|i: int| 0 <= i < vs0.len() implies {
            let fs = spec_fields_of((#[trigger] vs0[i]).fields);
            result.trait_impl.add_arms@[i].field_names.deep_view() == spec_names_of(fs)
        } by {
            lemma_built_bridges(ast.name@, vs0[i], variants@[i]);
        }
        assert forall|i: int| 0 <= i < vs0.len() implies result.trait_impl.signature@[i]
            == spec_input_roles(spec_fields_of((#[trigger] vs0[i]).fields)) by {
            lemma_built_bridges(ast.name@, vs0[i], variants@[i]);
        }
        assert forall|i: int| 0 <= i < vs0.len() implies {
            let fs = spec_fields_of((#[trigger] vs0[i]).fields);
            let sd = result.strategies@[i];
            &&& sd.name@ == ast.name@ + vs0[i].name@
            &&& sd.fields@.len() == fs.len()
            &&& (forall|j: int|
                0 <= j < fs.len() ==> (#[trigger] sd.fields@[j]).name@ == fs[j].name@)
            &&& (forall|j: int|
                0 <= j < fs.len() ==> Some((#[trigger] sd.fields@[j]).role) == spec_field_role(
                    fs[j],
                ))
        } by {
            let v = variants@[i];
            let fs = spec_fields_of(vs0[i].fields);
            let fsv = spec_fields_of(v.fields);
            assert forall|j: int| 0 <= j < fs.len() implies (
            #[trigger] result.strategies@[i].fields@[j]).name@ == fs[j].name@ && Some(
                result.strategies@[i].fields@[j].role,
            ) == spec_field_role(fs[j]) by {
                assert(fsv[j].name == fs[j].name);
                assert(v.fields_config@[j] == (FieldConfig { role: spec_field_role(fs[j]) }));
            }
        }
    }
    Ok(result)
}

} // verus!
