//! The data model of the transformation: parameters, signature patterns,
//! candidate functions, module bodies, planned variants, and the error
//! taxonomy. Each executable type has a ghost counterpart (its deep view)
//! over `Seq<char>`, which the contracts speak of.

use vstd::prelude::*;

verus! {

/// One `name : Type` parameter of the signature pattern, or a captured
/// parameter of a candidate function. Both pieces are kept as source text.
#[derive(Debug, PartialEq, Eq)]
pub struct SimpleArg {
    pub name: String,
    pub ty: String,
}

/// Ghost counterpart of [`SimpleArg`].
pub ghost struct ArgSpec {
    pub name: Seq<char>,
    pub ty: Seq<char>,
}

impl View for SimpleArg {
    type V = ArgSpec;

    open spec fn view(&self) -> ArgSpec {
        ArgSpec { name: self.name@, ty: self.ty@ }
    }
}

impl DeepView for SimpleArg {
    type V = ArgSpec;

    open spec fn deep_view(&self) -> ArgSpec {
        self@
    }
}

/// The parsed signature pattern: the common call shape every variant's
/// dispatch must present.
///
/// `generics` holds the text between the angle brackets of the generic
/// parameter list, `output` the return type text, and `where_clause` the
/// constraint text after the `where` keyword; each is absent when the
/// pattern leaves it out.
#[derive(Debug, PartialEq, Eq)]
pub struct Signature {
    pub name: Option<String>,
    pub generics: Option<String>,
    pub inputs: Vec<SimpleArg>,
    pub output: Option<String>,
    pub where_clause: Option<String>,
}

/// Ghost counterpart of [`Signature`].
pub ghost struct SignatureSpec {
    pub name: Option<Seq<char>>,
    pub generics: Option<Seq<char>>,
    pub inputs: Seq<ArgSpec>,
    pub output: Option<Seq<char>>,
    pub where_clause: Option<Seq<char>>,
}

impl DeepView for Signature {
    type V = SignatureSpec;

    open spec fn deep_view(&self) -> SignatureSpec {
        SignatureSpec {
            name: self.name.deep_view(),
            generics: self.generics.deep_view(),
            inputs: self.inputs.deep_view(),
            output: self.output.deep_view(),
            where_clause: self.where_clause.deep_view(),
        }
    }
}

/// The binding shape of one parameter of a candidate function.
#[derive(Debug, PartialEq, Eq)]
pub enum ParamShape {
    /// A parameter bound to an implicit enclosing instance (`self`-like).
    Receiver,
    /// A single simple named binding with its type text.
    Named { name: String, ty: String },
    /// A destructuring pattern binding; only its type text is kept.
    Pattern { ty: String },
}

/// Ghost counterpart of [`ParamShape`].
pub ghost enum ParamSpec {
    Receiver,
    Named { name: Seq<char>, ty: Seq<char> },
    Pattern { ty: Seq<char> },
}

impl DeepView for ParamShape {
    type V = ParamSpec;

    open spec fn deep_view(&self) -> ParamSpec {
        match self {
            ParamShape::Receiver => ParamSpec::Receiver,
            ParamShape::Named { name, ty } => ParamSpec::Named { name: name@, ty: ty@ },
            ParamShape::Pattern { ty } => ParamSpec::Pattern { ty: ty@ },
        }
    }
}

/// One function declaration found in the candidate body: its name, its
/// declared accessibility, its full parameter list in source order, and its
/// verbatim source text (re-emitted unchanged).
#[derive(Debug, PartialEq, Eq)]
pub struct Function {
    pub name: String,
    pub public: bool,
    pub params: Vec<ParamShape>,
    pub text: String,
}

/// Ghost counterpart of [`Function`].
pub ghost struct FunctionSpec {
    pub name: Seq<char>,
    pub public: bool,
    pub params: Seq<ParamSpec>,
    pub text: Seq<char>,
}

impl DeepView for Function {
    type V = FunctionSpec;

    open spec fn deep_view(&self) -> FunctionSpec {
        FunctionSpec {
            name: self.name@,
            public: self.public,
            params: self.params.deep_view(),
            text: self.text@,
        }
    }
}

/// One declaration of the candidate body. Declarations that are not
/// function definitions pass through the transformation untouched, so only
/// their verbatim text is kept.
#[derive(Debug, PartialEq, Eq)]
pub enum Item {
    Function(Function),
    Other(String),
}

/// Ghost counterpart of [`Item`].
pub ghost enum ItemSpec {
    Function(FunctionSpec),
    Other(Seq<char>),
}

impl DeepView for Item {
    type V = ItemSpec;

    open spec fn deep_view(&self) -> ItemSpec {
        match self {
            Item::Function(f) => ItemSpec::Function(f.deep_view()),
            Item::Other(t) => ItemSpec::Other(t@),
        }
    }
}

/// One attribute attached to the candidate body. At most the first
/// derivation attribute (`derive == true`) is relocated onto the generated
/// union; everything else stays on the body.
#[derive(Debug, PartialEq, Eq)]
pub struct Attr {
    pub derive: bool,
    pub text: String,
}

/// Ghost counterpart of [`Attr`].
pub ghost struct AttrSpec {
    pub derive: bool,
    pub text: Seq<char>,
}

impl DeepView for Attr {
    type V = AttrSpec;

    open spec fn deep_view(&self) -> AttrSpec {
        AttrSpec { derive: self.derive, text: self.text@ }
    }
}

/// The candidate body: a module-like container of declarations, with its
/// own name, visibility text (empty when private), and attributes.
#[derive(Debug, PartialEq, Eq)]
pub struct ModuleBody {
    pub name: String,
    pub vis: String,
    pub attrs: Vec<Attr>,
    pub items: Vec<Item>,
}

/// Ghost counterpart of [`ModuleBody`].
pub ghost struct ModuleSpec {
    pub name: Seq<char>,
    pub vis: Seq<char>,
    pub attrs: Seq<AttrSpec>,
    pub items: Seq<ItemSpec>,
}

impl DeepView for ModuleBody {
    type V = ModuleSpec;

    open spec fn deep_view(&self) -> ModuleSpec {
        ModuleSpec {
            name: self.name@,
            vis: self.vis@,
            attrs: self.attrs.deep_view(),
            items: self.items.deep_view(),
        }
    }
}

/// One planned variant of the generated union: its derived tag, the name
/// of the function it stands for, and the captured parameter prefix.
#[derive(Debug, PartialEq, Eq)]
pub struct VariantPlan {
    pub tag: String,
    pub func: String,
    pub captured: Vec<SimpleArg>,
}

/// Ghost counterpart of [`VariantPlan`].
pub ghost struct PlanSpec {
    pub tag: Seq<char>,
    pub func: Seq<char>,
    pub captured: Seq<ArgSpec>,
}

impl DeepView for VariantPlan {
    type V = PlanSpec;

    open spec fn deep_view(&self) -> PlanSpec {
        PlanSpec { tag: self.tag@, func: self.func@, captured: self.captured.deep_view() }
    }
}

/// Everything that can make the transformation abort. Positions are
/// indices: `at` a character index into the signature pattern text, `func`
/// an index into the eligible functions in declaration order, `param` an
/// index into that function's parameter list.
#[derive(Debug, Clone, Copy, PartialEq, Eq, Structural)]
pub enum Error {
    /// The signature pattern text is malformed at character index `at`.
    Parse { at: usize },
    /// An eligible function has a receiver-style parameter.
    ReceiverNotAllowed { func: usize, param: usize },
    /// An eligible function binds a parameter by a destructuring pattern.
    ArgumentMustBeNamed { func: usize, param: usize },
    /// An eligible function declares fewer parameters than the signature
    /// pattern requires.
    ArityUnderflow { func: usize },
    /// Two eligible functions derive the same variant tag.
    TagCollision { first: usize, second: usize },
}

} // verus!
