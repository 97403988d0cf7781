use vstd::prelude::*;

verus! {

/// A literal value found in an attribute argument.  Only string literals are
/// meaningful to the expansion; every other literal kind is a reportable
/// authoring mistake, so it is kept only as `NotStr`.
#[derive(Clone, Debug, PartialEq, Eq)]
pub enum LitValue {
    Str(String),
    NotStr,
}

/// Ghost mirror of `LitValue`.
pub enum LitModel {
    Str(Seq<char>),
    NotStr,
}

impl View for LitValue {
    type V = LitModel;

    open spec fn view(&self) -> LitModel {
        match self {
            LitValue::Str(s) => LitModel::Str(s@),
            LitValue::NotStr => LitModel::NotStr,
        }
    }
}

/// The arguments of a base designation on a variant: the module the generated
/// classes live in, and optionally the exception class the hierarchy's root
/// inherits from, written `MODULE.EXCEPTION`.
#[derive(Clone, Debug, PartialEq, Eq)]
pub struct BaseAttr {
    pub module: LitValue,
    pub inherits: Option<LitValue>,
}

/// Ghost mirror of `BaseAttr`.
pub struct BaseModel {
    pub module: LitModel,
    pub inherits: Option<LitModel>,
}

impl View for BaseAttr {
    type V = BaseModel;

    open spec fn view(&self) -> BaseModel {
        BaseModel {
            module: self.module@,
            inherits: match &self.inherits {
                Some(l) => Some(l@),
                None => None,
            },
        }
    }
}

/// The fields of one enum variant, reduced to what the expansion reads: unit
/// variants have none, tuple variants only an arity, record variants a list
/// of field names.
#[derive(Clone, Debug, PartialEq, Eq)]
pub enum FieldsKind {
    Unit,
    Unnamed(usize),
    Named(Vec<String>),
}

/// Ghost mirror of `FieldsKind`.
pub enum FieldsModel {
    Unit,
    Unnamed(nat),
    Named(Seq<Seq<char>>),
}

impl View for FieldsKind {
    type V = FieldsModel;

    open spec fn view(&self) -> FieldsModel {
        match self {
            FieldsKind::Unit => FieldsModel::Unit,
            FieldsKind::Unnamed(n) => FieldsModel::Unnamed(*n as nat),
            FieldsKind::Named(names) => FieldsModel::Named(names.deep_view()),
        }
    }
}

/// One variant of the annotated enum: its name, its fields, its message
/// template (a variant without one is a reported authoring mistake), and its
/// base designation if it carries one.
#[derive(Clone, Debug, PartialEq, Eq)]
pub struct VariantSpec {
    pub name: String,
    pub fields: FieldsKind,
    pub format: Option<String>,
    pub base: Option<BaseAttr>,
}

/// Ghost mirror of `VariantSpec`.
pub struct VariantModel {
    pub name: Seq<char>,
    pub fields: FieldsModel,
    pub format: Option<Seq<char>>,
    pub base: Option<BaseModel>,
}

impl View for VariantSpec {
    type V = VariantModel;

    open spec fn view(&self) -> VariantModel {
        VariantModel {
            name: self.name@,
            fields: self.fields@,
            format: match &self.format {
                Some(f) => Some(f@),
                None => None,
            },
            base: match &self.base {
                Some(b) => Some(b@),
                None => None,
            },
        }
    }
}

/// The annotated enum: its name and its variants in declaration order.
#[derive(Clone, Debug, PartialEq, Eq)]
pub struct EnumSpec {
    pub name: String,
    pub variants: Vec<VariantSpec>,
}

/// Ghost mirror of `EnumSpec`.
pub struct EnumModel {
    pub name: Seq<char>,
    pub variants: Seq<VariantModel>,
}

impl View for EnumSpec {
    type V = EnumModel;

    open spec fn view(&self) -> EnumModel {
        EnumModel { name: self.name@, variants: self.variants.deep_view() }
    }
}

impl DeepView for VariantSpec {
    type V = VariantModel;

    open spec fn deep_view(&self) -> VariantModel {
        self@
    }
}

/// How a match arm builds its exception message: the template passed through
/// verbatim (unit variants), interpolated from the binders in order (tuple
/// variants), or interpolated from the binders by name (record variants).
#[derive(Clone, Copy, Debug, PartialEq, Eq)]
pub enum ArmKind {
    Plain,
    Positional,
    Named,
}

/// One arm of the generated conversion: the pattern for `variant_name` binds
/// `binders`, and the arm builds an instance of the class `exc_name` with a
/// message interpolated from `message` as `kind` says.
#[derive(Clone, Debug, PartialEq, Eq)]
pub struct MatchArm {
    pub variant_name: String,
    pub binders: Vec<String>,
    pub exc_name: String,
    pub message: String,
    pub kind: ArmKind,
}

/// Ghost mirror of `MatchArm`.
pub struct ArmModel {
    pub variant_name: Seq<char>,
    pub binders: Seq<Seq<char>>,
    pub exc_name: Seq<char>,
    pub message: Seq<char>,
    pub kind: ArmKind,
}

impl View for MatchArm {
    type V = ArmModel;

    open spec fn view(&self) -> ArmModel {
        ArmModel {
            variant_name: self.variant_name@,
            binders: self.binders.deep_view(),
            exc_name: self.exc_name@,
            message: self.message@,
            kind: self.kind,
        }
    }
}

impl DeepView for MatchArm {
    type V = ArmModel;

    open spec fn deep_view(&self) -> ArmModel {
        self@
    }
}

/// One generated exception class: its name and the class it inherits from.
#[derive(Clone, Debug, PartialEq, Eq)]
pub struct ExceptionDef {
    pub name: String,
    pub base: String,
}

/// Ghost mirror of `ExceptionDef`.
pub struct ExcModel {
    pub name: Seq<char>,
    pub base: Seq<char>,
}

impl View for ExceptionDef {
    type V = ExcModel;

    open spec fn view(&self) -> ExcModel {
        ExcModel { name: self.name@, base: self.base@ }
    }
}

impl DeepView for ExceptionDef {
    type V = ExcModel;

    open spec fn deep_view(&self) -> ExcModel {
        self@
    }
}

/// The import the generated module needs when the hierarchy's root inherits
/// from an exception of another module.
#[derive(Clone, Debug, PartialEq, Eq)]
pub struct UseBase {
    pub module: String,
    pub exception: String,
}

/// Ghost mirror of `UseBase`.
pub struct UseModel {
    pub module: Seq<char>,
    pub exception: Seq<char>,
}

impl View for UseBase {
    type V = UseModel;

    open spec fn view(&self) -> UseModel {
        UseModel { module: self.module@, exception: self.exception@ }
    }
}

/// Everything the generated code consists of: the module that holds the
/// exception classes, the import its root class may need, the classes
/// themselves, and the match arms of the conversion from the enum to an
/// exception value.
#[derive(Clone, Debug, PartialEq, Eq)]
pub struct GeneratedCode {
    pub module_name: String,
    pub enum_name: String,
    pub base_use: Option<UseBase>,
    pub exceptions: Vec<ExceptionDef>,
    pub arms: Vec<MatchArm>,
}

/// Ghost mirror of `GeneratedCode`.
pub struct CodeModel {
    pub module_name: Seq<char>,
    pub enum_name: Seq<char>,
    pub base_use: Option<UseModel>,
    pub exceptions: Seq<ExcModel>,
    pub arms: Seq<ArmModel>,
}

impl View for GeneratedCode {
    type V = CodeModel;

    open spec fn view(&self) -> CodeModel {
        CodeModel {
            module_name: self.module_name@,
            enum_name: self.enum_name@,
            base_use: match &self.base_use {
                Some(u) => Some(u@),
                None => None,
            },
            exceptions: self.exceptions.deep_view(),
            arms: self.arms.deep_view(),
        }
    }
}

/// An authoring mistake that aborts the expansion.
#[derive(Clone, Copy, Debug, PartialEq, Eq)]
pub enum DeriveError {
    /// The enum has no variants.
    EmptyEnum,
    /// No variant carries a base designation.
    MissingBase,
    /// More than one variant carries a base designation.
    DuplicateBase,
    /// The module argument of the base designation is not a string literal.
    ModuleNotString,
    /// The inherits argument of the base designation is not a string literal.
    InheritsNotString,
    /// The inherits argument does not consist of exactly two dot-separated
    /// pieces.
    MalformedInherits,
    /// A variant carries no message template.
    MissingFormat,
    /// A variant's message template has a malformed placeholder.
    InvalidFormatString,
    /// A variant's message template has placeholders that do not match the
    /// variant's fields.
    UnmatchedPlaceholders,
}

/// The diagnostic text for each authoring mistake.
pub open spec fn error_message(e: DeriveError) -> Seq<char> {
    match e {
        DeriveError::EmptyEnum => "Cannot derive `Routes` on empty enum"@,
        DeriveError::MissingBase => "There must be one base exception"@,
        DeriveError::DuplicateBase => "There can only be one base exception."@,
        DeriveError::ModuleNotString => "`module` argument of `base` must be a string."@,
        DeriveError::InheritsNotString => "`inherits` argument of `base` must be a string."@,
        DeriveError::MalformedInherits => "`inherits` argument of `base` must follow `MODULE.EXCEPTION` format."@,
        DeriveError::MissingFormat => "every variant must carry a `format` attribute."@,
        DeriveError::InvalidFormatString => "`format` message has a malformed placeholder."@,
        DeriveError::UnmatchedPlaceholders => "`format` placeholders must match the variant's fields."@,
    }
}

impl DeriveError {
    /// The diagnostic to abort compilation with.
    pub fn message(&self) -> (r: &'static str)
        ensures
            r@ == error_message(*self),
    {
        match self {
            DeriveError::EmptyEnum => "Cannot derive `Routes` on empty enum",
            DeriveError::MissingBase => "There must be one base exception",
            DeriveError::DuplicateBase => "There can only be one base exception.",
            DeriveError::ModuleNotString => "`module` argument of `base` must be a string.",
            DeriveError::InheritsNotString => "`inherits` argument of `base` must be a string.",
            DeriveError::MalformedInherits => "`inherits` argument of `base` must follow `MODULE.EXCEPTION` format.",
            DeriveError::MissingFormat => "every variant must carry a `format` attribute.",
            DeriveError::InvalidFormatString => "`format` message has a malformed placeholder.",
            DeriveError::UnmatchedPlaceholders => "`format` placeholders must match the variant's fields.",
        }
    }
}

/// Resolved inheritance target for the hierarchy's root class: the exception
/// it derives from, and the module that exception is imported from (`None`
/// when it needs no import).
#[derive(Clone, Debug, PartialEq, Eq)]
pub struct Inherits {
    pub module: Option<String>,
    pub exception: String,
}

/// Ghost mirror of `Inherits`.
pub struct InheritsModel {
    pub module: Option<Seq<char>>,
    pub exception: Seq<char>,
}

impl View for Inherits {
    type V = InheritsModel;

    open spec fn view(&self) -> InheritsModel {
        InheritsModel {
            module: match &self.module {
                Some(m) => Some(m@),
                None => None,
            },
            exception: self.exception@,
        }
    }
}

} // verus!
