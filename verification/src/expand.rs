use crate::model::{
    ArmKind, ArmModel, BaseModel, CodeModel, DeriveError, EnumModel, EnumSpec, ExcModel,
    ExceptionDef, FieldsKind, FieldsModel, GeneratedCode, Inherits, InheritsModel, LitModel,
    LitValue, MatchArm, UseBase, UseModel, VariantModel,
};
use crate::inherit::{get_default_inherit_spec, get_inherit_spec, split_dots, split_dots_model};
use crate::names::{arg_binders, arg_names};
use crate::template::{
    placeholders, placeholders_fit_arity, placeholders_match_names, scan_template,
    template_ok_named, template_ok_unnamed,
};
use vstd::prelude::*;

verus! {

/// The arm generated for a unit variant: no binders, and the message template
/// passed through verbatim.  The base variant's exception class carries the
/// enum's own name; every other variant's class carries the variant's name.
pub open spec fn unit_arm_model(
    enum_name: Seq<char>,
    variant_name: Seq<char>,
    message: Seq<char>,
    is_base: bool,
) -> ArmModel {
    ArmModel {
        variant_name: variant_name,
        binders: Seq::empty(),
        exc_name: if is_base {
            enum_name
        } else {
            variant_name
        },
        message: message,
        kind: ArmKind::Plain,
    }
}

/// The arm generated for a tuple variant of arity `n`: one synthesized binder
/// per field, interpolated positionally.
pub open spec fn unnamed_arm_model(
    enum_name: Seq<char>,
    variant_name: Seq<char>,
    n: nat,
    message: Seq<char>,
    is_base: bool,
) -> ArmModel {
    ArmModel {
        variant_name: variant_name,
        binders: arg_binders(n),
        exc_name: if is_base {
            enum_name
        } else {
            variant_name
        },
        message: message,
        kind: ArmKind::Positional,
    }
}

/// The arm generated for a record variant: the field names themselves as
/// binders, interpolated by name.
pub open spec fn named_arm_model(
    enum_name: Seq<char>,
    variant_name: Seq<char>,
    names: Seq<Seq<char>>,
    message: Seq<char>,
    is_base: bool,
) -> ArmModel {
    ArmModel {
        variant_name: variant_name,
        binders: names,
        exc_name: if is_base {
            enum_name
        } else {
            variant_name
        },
        message: message,
        kind: ArmKind::Named,
    }
}

/// The exception class generated for a variant: the base variant's class
/// carries the enum's name and inherits from the resolved target; every other
/// class carries the variant's name and inherits from the base class.
pub open spec fn exc_model(
    enum_name: Seq<char>,
    variant_name: Seq<char>,
    is_base: bool,
    inherits_exception: Seq<char>,
) -> ExcModel {
    if is_base {
        ExcModel { name: enum_name, base: inherits_exception }
    } else {
        ExcModel { name: variant_name, base: enum_name }
    }
}

/// The import the generated module needs, if any.
pub open spec fn use_model(inh: InheritsModel) -> Option<UseModel> {
    match inh.module {
        Some(m) => Some(UseModel { module: m, exception: inh.exception }),
        None => None,
    }
}

/// Builds the match arm for a unit variant.
pub fn impl_unit(
    enum_name: &String,
    variant_name: &String,
    message: &String,
    is_base: bool,
) -> (a: MatchArm)
    ensures
        a@ == unit_arm_model(enum_name@, variant_name@, message@, is_base),
{
    let a = MatchArm {
        variant_name: variant_name.clone(),
        binders: Vec::new(),
        exc_name: if is_base {
            enum_name.clone()
        } else {
            variant_name.clone()
        },
        message: message.clone(),
        kind: ArmKind::Plain,
    };
    proof {
        assert(a.binders.deep_view() =~= Seq::<Seq<char>>::empty());
    }
    a
}

/// Builds the match arm for a tuple variant of arity `arity`.
pub fn impl_unnamed_fields(
    enum_name: &String,
    variant_name: &String,
    arity: usize,
    message: &String,
    is_base: bool,
) -> (a: MatchArm)
    ensures
        a@ == unnamed_arm_model(enum_name@, variant_name@, arity as nat, message@, is_base),
{
    MatchArm {
        variant_name: variant_name.clone(),
        binders: arg_names(arity),
        exc_name: if is_base {
            enum_name.clone()
        } else {
            variant_name.clone()
        },
        message: message.clone(),
        kind: ArmKind::Positional,
    }
}

fn clone_strings(v: &Vec<String>) -> (r: Vec<String>)
    ensures
        r.deep_view() == v.deep_view(),
{
    let n = v.len();
    let mut r: Vec<String> = Vec::new();
    let mut i: usize = 0;
    while i < n
        invariant
            i <= n,
            n == v@.len(),
            r@.len() == i,
            forall|j: int| 0 <= j < i ==> r@[j] == v@[j],
        decreases n - i,
    {
        r.push(v[i].clone());
        i = i + 1;
    }
    proof {
        assert(r.deep_view() =~~= v.deep_view());
    }
    r
}

/// Builds the match arm for a record variant with the given field names.
pub fn impl_named_fields(
    enum_name: &String,
    variant_name: &String,
    field_names: &Vec<String>,
    message: &String,
    is_base: bool,
) -> (a: MatchArm)
    ensures
        a@ == named_arm_model(
            enum_name@,
            variant_name@,
            field_names.deep_view(),
            message@,
            is_base,
        ),
{
    MatchArm {
        variant_name: variant_name.clone(),
        binders: clone_strings(field_names),
        exc_name: if is_base {
            enum_name.clone()
        } else {
            variant_name.clone()
        },
        message: message.clone(),
        kind: ArmKind::Named,
    }
}

/// Builds the exception class declaration for a variant.
pub fn impl_create_exception(
    enum_name: &String,
    variant_name: &String,
    is_base: bool,
    inherits_spec: &Inherits,
) -> (d: ExceptionDef)
    ensures
        d@ == exc_model(enum_name@, variant_name@, is_base, inherits_spec@.exception),
{
    if is_base {
        ExceptionDef { name: enum_name.clone(), base: inherits_spec.exception.clone() }
    } else {
        ExceptionDef { name: variant_name.clone(), base: enum_name.clone() }
    }
}

/// Builds the import of the base class, when it lives in another module.
pub fn impl_use_base_exc(inherits: &Inherits) -> (u: Option<UseBase>)
    ensures
        (match u {
            Some(ub) => Some(ub@),
            None => None,
        }) == use_model(inherits@),
{
    match &inherits.module {
        Some(m) => Some(
            UseBase { module: m.clone(), exception: inherits.exception.clone() },
        ),
        None => None,
    }
}

/// How many variants carry a base designation.
pub open spec fn count_bases(vs: Seq<VariantModel>) -> nat
    decreases vs.len(),
{
    if vs.len() == 0 {
        0
    } else {
        count_bases(vs.drop_last()) + (if vs.last().base is Some {
            1nat
        } else {
            0nat
        })
    }
}

/// The first variant that carries a base designation, in declaration order.
pub open spec fn first_base(vs: Seq<VariantModel>) -> Option<VariantModel>
    decreases vs.len(),
{
    if vs.len() == 0 {
        None
    } else {
        match first_base(vs.drop_last()) {
            Some(v) => Some(v),
            None => if vs.last().base is Some {
                Some(vs.last())
            } else {
                None
            },
        }
    }
}

/// A base designation whose inherits argument is not a string literal.
pub open spec fn bad_inherits(v: VariantModel) -> bool {
    v.base matches Some(b) && b.inherits matches Some(l) && !(l is Str)
}

/// Whether any variant's base designation has a non-string inherits argument.
pub open spec fn any_bad_inherits(vs: Seq<VariantModel>) -> bool
    decreases vs.len(),
{
    if vs.len() == 0 {
        false
    } else {
        any_bad_inherits(vs.drop_last()) || bad_inherits(vs.last())
    }
}

/// The inheritance target a base designation resolves to: the default when it
/// names none, otherwise the two dot-separated pieces of its argument.
pub open spec fn inherits_model_of(b: BaseModel) -> Result<InheritsModel, DeriveError> {
    match b.inherits {
        None => Ok(InheritsModel { module: None, exception: "PyException"@ }),
        Some(LitModel::Str(s)) => {
            let pieces = split_dots_model(s);
            if pieces.len() != 2 {
                Err(DeriveError::MalformedInherits)
            } else {
                Ok(InheritsModel { module: Some(pieces[0]), exception: pieces[1] })
            }
        },
        Some(LitModel::NotStr) => Err(DeriveError::InheritsNotString),
    }
}

/// The mistake in one variant's message template, if any; a variant without
/// a template is itself a mistake, so a successful expansion maps every
/// variant.
pub open spec fn variant_format_error(v: VariantModel) -> Option<DeriveError> {
    match v.format {
        None => Some(DeriveError::MissingFormat),
        Some(f) => match v.fields {
            FieldsModel::Unit => None,
            FieldsModel::Unnamed(n) => if placeholders(f) is None {
                Some(DeriveError::InvalidFormatString)
            } else if !template_ok_unnamed(f, n) {
                Some(DeriveError::UnmatchedPlaceholders)
            } else {
                None
            },
            FieldsModel::Named(names) => if placeholders(f) is None {
                Some(DeriveError::InvalidFormatString)
            } else if !template_ok_named(f, names) {
                Some(DeriveError::UnmatchedPlaceholders)
            } else {
                None
            },
        },
    }
}

/// The first template mistake over all variants, in declaration order.
pub open spec fn first_format_error(vs: Seq<VariantModel>) -> Option<DeriveError>
    decreases vs.len(),
{
    if vs.len() == 0 {
        None
    } else {
        match first_format_error(vs.drop_last()) {
            Some(e) => Some(e),
            None => variant_format_error(vs.last()),
        }
    }
}

/// The match arm one variant contributes, given the enum's name, the base
/// variant's name, and the variant's template.
pub open spec fn arm_model_of(
    enum_name: Seq<char>,
    base_name: Seq<char>,
    v: VariantModel,
    f: Seq<char>,
) -> ArmModel {
    let is_base = v.name == base_name;
    match v.fields {
        FieldsModel::Unit => unit_arm_model(enum_name, v.name, f, is_base),
        FieldsModel::Unnamed(n) => unnamed_arm_model(enum_name, v.name, n, f, is_base),
        FieldsModel::Named(names) => named_arm_model(enum_name, v.name, names, f, is_base),
    }
}

/// The match arms of the conversion, one per variant with a template, in
/// declaration order.  A variant without a template contributes none here,
/// but the expansion reports such input instead of producing code, so every
/// successful expansion maps every variant.
pub open spec fn arms_model(
    enum_name: Seq<char>,
    base_name: Seq<char>,
    vs: Seq<VariantModel>,
) -> Seq<ArmModel>
    decreases vs.len(),
{
    if vs.len() == 0 {
        Seq::empty()
    } else {
        arms_model(enum_name, base_name, vs.drop_last()) + (match vs.last().format {
            Some(f) => seq![arm_model_of(enum_name, base_name, vs.last(), f)],
            None => Seq::empty(),
        })
    }
}

/// The generated exception classes, one per variant with a template, in
/// declaration order (see `arms_model` on totality).
pub open spec fn excs_model(
    enum_name: Seq<char>,
    base_name: Seq<char>,
    inherits_exception: Seq<char>,
    vs: Seq<VariantModel>,
) -> Seq<ExcModel>
    decreases vs.len(),
{
    if vs.len() == 0 {
        Seq::empty()
    } else {
        excs_model(enum_name, base_name, inherits_exception, vs.drop_last()) + (
        match vs.last().format {
            Some(f) => seq![
                exc_model(
                    enum_name,
                    vs.last().name,
                    vs.last().name == base_name,
                    inherits_exception,
                ),
            ],
            None => Seq::empty(),
        })
    }
}

/// What the expansion produces for an annotated enum: the generated code, or
/// the first authoring mistake found.  Mistakes are reported in this order:
/// an empty enum; no base designation; a non-string inherits argument on any
/// base designation; more than one base designation; a non-string module
/// argument; a malformed inherits argument; the first template mistake in
/// declaration order.
pub open spec fn spec_expand(e: EnumModel) -> Result<CodeModel, DeriveError> {
    if e.variants.len() == 0 {
        Err(DeriveError::EmptyEnum)
    } else if count_bases(e.variants) == 0 {
        Err(DeriveError::MissingBase)
    } else if any_bad_inherits(e.variants) {
        Err(DeriveError::InheritsNotString)
    } else if count_bases(e.variants) > 1 {
        Err(DeriveError::DuplicateBase)
    } else {
        match first_base(e.variants) {
            None => Err(DeriveError::MissingBase),
            Some(bv) => match bv.base {
                None => Err(DeriveError::MissingBase),
                Some(b) => match b.module {
                    LitModel::NotStr => Err(DeriveError::ModuleNotString),
                    LitModel::Str(module) => match inherits_model_of(b) {
                        Err(err) => Err(err),
                        Ok(inh) => match first_format_error(e.variants) {
                            Some(err) => Err(err),
                            None => Ok(
                                CodeModel {
                                    module_name: module,
                                    enum_name: e.name,
                                    base_use: use_model(inh),
                                    exceptions: excs_model(
                                        e.name,
                                        bv.name,
                                        inh.exception,
                                        e.variants,
                                    ),
                                    arms: arms_model(e.name, bv.name, e.variants),
                                },
                            ),
                        },
                    },
                },
            },
        }
    }
}

proof fn lemma_take_step<A>(s: Seq<A>, i: int)
    requires
        0 <= i < s.len(),
    ensures
        s.take(i + 1).drop_last() == s.take(i),
        s.take(i + 1).last() == s[i],
        s.take(i + 1).len() == i + 1,
{
    assert(s.take(i + 1).drop_last() =~= s.take(i));
}

/// A template mistake in a prefix of the variants is the first one reported
/// for the whole list.
proof fn lemma_ffe_extends(vs: Seq<VariantModel>, i: int)
    requires
        0 <= i <= vs.len(),
        first_format_error(vs.take(i)) is Some,
    ensures
        first_format_error(vs) == first_format_error(vs.take(i)),
    decreases vs.len() - i,
{
    if i == vs.len() {
        assert(vs.take(i) =~= vs);
    } else {
        lemma_take_step(vs, i);
        lemma_ffe_extends(vs, i + 1);
    }
}

/// A designated base variant exists as soon as the count is positive.
proof fn lemma_first_base_some(vs: Seq<VariantModel>)
    requires
        count_bases(vs) > 0,
    ensures
        first_base(vs) is Some,
    decreases vs.len(),
{
    if vs.len() > 0 && count_bases(vs.drop_last()) > 0 {
        lemma_first_base_some(vs.drop_last());
    }
}

/// A non-string inherits argument anywhere makes `any_bad_inherits` hold.
proof fn lemma_any_bad_at(vs: Seq<VariantModel>, k: int)
    requires
        0 <= k < vs.len(),
        bad_inherits(vs[k]),
    ensures
        any_bad_inherits(vs),
    decreases vs.len(),
{
    if k < vs.len() - 1 {
        lemma_any_bad_at(vs.drop_last(), k);
    }
}

/// Expands one annotated enum into the generated code, or reports the first
/// authoring mistake, exactly as [`spec_expand`] says.
pub fn pyexc_macro(input: &EnumSpec) -> (r: Result<GeneratedCode, DeriveError>)
    ensures
        (match r {
            Ok(g) => Ok::<CodeModel, DeriveError>(g@),
            Err(e) => Err(e),
        }) == spec_expand(input@),
{
    let ghost vm = input.variants.deep_view();
    let vlen = input.variants.len();
    if vlen == 0 {
        return Err(DeriveError::EmptyEnum);
    }
    let mut base_count: usize = 0;
    let mut first_idx: Option<usize> = None;
    let mut bad: bool = false;
    let mut i: usize = 0;
    proof {
        assert(vm.take(0) =~= Seq::<VariantModel>::empty());
    }
    while i < vlen
        invariant
            i <= vlen,
            vlen == vm.len(),
            vm == input.variants.deep_view(),
            base_count <= i,
            base_count as nat == count_bases(vm.take(i as int)),
            bad == any_bad_inherits(vm.take(i as int)),
            match first_idx {
                None => first_base(vm.take(i as int)) is None,
                Some(k) => k < i && vm[k as int].base is Some && first_base(vm.take(i as int))
                    == Some(vm[k as int]),
            },
        decreases vlen - i,
    {
        proof {
            lemma_take_step(vm, i as int);
            assert(vm[i as int] == input.variants@[i as int]@);
        }
        let v = &input.variants[i];
        match &v.base {
            Some(b) => {
                base_count = base_count + 1;
                if first_idx.is_none() {
                    first_idx = Some(i);
                }
                match &b.inherits {
                    Some(LitValue::NotStr) => {
                        bad = true;
                    },
                    _ => {},
                }
            },
            None => {},
        }
        i = i + 1;
    }
    proof {
        assert(vm.take(vlen as int) =~= vm);
    }
    if base_count == 0 {
        return Err(DeriveError::MissingBase);
    }
    if bad {
        return Err(DeriveError::InheritsNotString);
    }
    if base_count > 1 {
        return Err(DeriveError::DuplicateBase);
    }
    let k = match first_idx {
        Some(k) => k,
        None => {
            proof {
                lemma_first_base_some(vm);
                assert(false);
            }
            return Err(DeriveError::MissingBase);
        },
    };
    let bv = &input.variants[k];
    proof {
        assert(vm[k as int] == input.variants@[k as int]@);
    }
    let battr = match &bv.base {
        Some(b) => b,
        None => {
            proof {
                assert(false);
            }
            return Err(DeriveError::MissingBase);
        },
    };
    let module = match &battr.module {
        LitValue::Str(m) => m,
        LitValue::NotStr => {
            return Err(DeriveError::ModuleNotString);
        },
    };
    let ghost gb = battr@;
    let inh: Inherits = match &battr.inherits {
        None => get_default_inherit_spec(),
        Some(LitValue::Str(s)) => {
            let pieces = split_dots(s.as_str());
            proof {
                assert(pieces.deep_view().len() == pieces@.len());
            }
            if pieces.len() != 2 {
                return Err(DeriveError::MalformedInherits);
            }
            let r = get_inherit_spec(&pieces);
            proof {
                assert(r@.module == Some(pieces.deep_view()[0]));
                assert(r@.exception == pieces.deep_view()[1]);
            }
            r
        },
        Some(LitValue::NotStr) => {
            proof {
                lemma_any_bad_at(vm, k as int);
                assert(false);
            }
            return Err(DeriveError::InheritsNotString);
        },
    };
    proof {
        assert(inherits_model_of(gb) == Ok::<InheritsModel, DeriveError>(inh@));
    }
    let mut j: usize = 0;
    proof {
        assert(vm.take(0) =~= Seq::<VariantModel>::empty());
    }
    while j < vlen
        invariant
            j <= vlen,
            vlen == vm.len(),
            vm == input.variants.deep_view(),
            0 < vlen,
            k < vlen,
            count_bases(vm) == 1,
            !any_bad_inherits(vm),
            first_base(vm) == Some(vm[k as int]),
            vm[k as int].base == Some(gb),
            gb.module == LitModel::Str(module@),
            inherits_model_of(gb) == Ok::<InheritsModel, DeriveError>(inh@),
            first_format_error(vm.take(j as int)) is None,
        decreases vlen - j,
    {
        proof {
            lemma_take_step(vm, j as int);
            assert(vm[j as int] == input.variants@[j as int]@);
        }
        let v = &input.variants[j];
        match &v.format {
            None => {
                proof {
                    lemma_ffe_extends(vm, j as int + 1);
                }
                return Err(DeriveError::MissingFormat);
            },
            Some(f) => {
                match &v.fields {
                    FieldsKind::Unit => {},
                    FieldsKind::Unnamed(nf) => {
                        match scan_template(f.as_str()) {
                            None => {
                                proof {
                                    lemma_ffe_extends(vm, j as int + 1);
                                }
                                return Err(DeriveError::InvalidFormatString);
                            },
                            Some(ps) => {
                                if !placeholders_fit_arity(&ps, *nf) {
                                    proof {
                                        lemma_ffe_extends(vm, j as int + 1);
                                    }
                                    return Err(DeriveError::UnmatchedPlaceholders);
                                }
                            },
                        }
                    },
                    FieldsKind::Named(names) => {
                        match scan_template(f.as_str()) {
                            None => {
                                proof {
                                    lemma_ffe_extends(vm, j as int + 1);
                                }
                                return Err(DeriveError::InvalidFormatString);
                            },
                            Some(ps) => {
                                if !placeholders_match_names(&ps, names) {
                                    proof {
                                        lemma_ffe_extends(vm, j as int + 1);
                                    }
                                    return Err(DeriveError::UnmatchedPlaceholders);
                                }
                            },
                        }
                    },
                }
            },
        }
        j = j + 1;
    }
    proof {
        assert(vm.take(vlen as int) =~= vm);
    }
    let base_name = &bv.name;
    let ghost bn = vm[k as int].name;
    let mut arms: Vec<MatchArm> = Vec::new();
    let mut excs: Vec<ExceptionDef> = Vec::new();
    let mut t: usize = 0;
    proof {
        assert(vm.take(0) =~= Seq::<VariantModel>::empty());
        assert(arms.deep_view() =~= arms_model(input.name@, bn, vm.take(0)));
        assert(excs.deep_view() =~= excs_model(input.name@, bn, inh@.exception, vm.take(0)));
    }
    while t < vlen
        invariant
            t <= vlen,
            vlen == vm.len(),
            vm == input.variants.deep_view(),
            0 < vlen,
            k < vlen,
            count_bases(vm) == 1,
            !any_bad_inherits(vm),
            first_base(vm) == Some(vm[k as int]),
            vm[k as int].base == Some(gb),
            gb.module == LitModel::Str(module@),
            inherits_model_of(gb) == Ok::<InheritsModel, DeriveError>(inh@),
            first_format_error(vm) is None,
            base_name@ == bn,
            arms.deep_view() == arms_model(input.name@, bn, vm.take(t as int)),
            excs.deep_view() == excs_model(input.name@, bn, inh@.exception, vm.take(t as int)),
        decreases vlen - t,
    {
        proof {
            lemma_take_step(vm, t as int);
            assert(vm[t as int] == input.variants@[t as int]@);
        }
        let v = &input.variants[t];
        match &v.format {
            None => {},
            Some(f) => {
                let is_base = v.name.eq(base_name);
                let ghost old_arms = arms.deep_view();
                let ghost old_excs = excs.deep_view();
                match &v.fields {
                    FieldsKind::Unit => {
                        arms.push(impl_unit(&input.name, &v.name, f, is_base));
                    },
                    FieldsKind::Unnamed(nf) => {
                        arms.push(impl_unnamed_fields(&input.name, &v.name, *nf, f, is_base));
                    },
                    FieldsKind::Named(fnames) => {
                        arms.push(impl_named_fields(&input.name, &v.name, fnames, f, is_base));
                    },
                }
                excs.push(impl_create_exception(&input.name, &v.name, is_base, &inh));
                proof {
                    assert(arms.deep_view() =~= old_arms.push(
                        arm_model_of(input.name@, bn, vm[t as int], f@),
                    ));
                    assert(excs.deep_view() =~= old_excs.push(
                        exc_model(
                            input.name@,
                            vm[t as int].name,
                            vm[t as int].name == bn,
                            inh@.exception,
                        ),
                    ));
                    assert(arms.deep_view() =~= arms_model(input.name@, bn, vm.take(t as int + 1)));
                    assert(excs.deep_view() =~= excs_model(
                        input.name@,
                        bn,
                        inh@.exception,
                        vm.take(t as int + 1),
                    ));
                }
            },
        }
        t = t + 1;
    }
    proof {
        assert(vm.take(vlen as int) =~= vm);
    }
    let base_use = impl_use_base_exc(&inh);
    let g = GeneratedCode {
        module_name: module.clone(),
        enum_name: input.name.clone(),
        base_use,
        exceptions: excs,
        arms,
    };
    proof {
        assert(spec_expand(input@) == Ok::<CodeModel, DeriveError>(g@));
    }
    Ok(g)
}

} // verus!
