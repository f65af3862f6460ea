//! Classification of type expressions, and the choice of how a classified type
//! crosses into the generated binding.

use crate::config::Config;
use crate::graph::TypeExpr;
use crate::text::same;
use vstd::prelude::*;
use vstd::string::*;

verus! {

/// What a type expression was classified as.
pub enum ArgType {
    /// The type that declares the member.
    Self_,
    /// A configured primitive.
    Primitive(String),
    /// A reference to a classified type.
    Ref { is_mut: bool, ref_: Box<ArgType> },
    /// A bound type.
    Wrapped(String),
    /// A type parameter that is bound to nothing.
    Generic(String),
    /// A named type that is neither a primitive nor bound.
    Unsupported,
}

/// The mathematical value of an [`ArgType`].
pub ghost enum ArgTypeView {
    Self_,
    Primitive(Seq<char>),
    Ref { is_mut: bool, ref_: Box<ArgTypeView> },
    Wrapped(Seq<char>),
    Generic(Seq<char>),
    Unsupported,
}

/// The mathematical value of a classified type.
pub open spec fn arg_type_view(a: ArgType) -> ArgTypeView
    decreases a,
{
    match a {
        ArgType::Self_ => ArgTypeView::Self_,
        ArgType::Primitive(n) => ArgTypeView::Primitive(n@),
        ArgType::Ref { is_mut, ref_ } => ArgTypeView::Ref {
            is_mut,
            ref_: Box::new(arg_type_view(*ref_)),
        },
        ArgType::Wrapped(n) => ArgTypeView::Wrapped(n@),
        ArgType::Generic(n) => ArgTypeView::Generic(n@),
        ArgType::Unsupported => ArgTypeView::Unsupported,
    }
}

impl View for ArgType {
    type V = ArgTypeView;

    open spec fn view(&self) -> ArgTypeView {
        arg_type_view(*self)
    }
}

/// How a value crosses into the binding: as it is, through the generated wrapper of
/// its type, or (`Bare`) without either, which for a field means a reflected handle.
#[derive(Clone, Copy, PartialEq, Eq, Structural, Debug)]
pub enum ArgWrapperType {
    Raw,
    Wrapped,
    Bare,
}

/// What a name stands for: the declaring type, a primitive, a free type parameter,
/// a bound type, or nothing that can be bound, tried in that order.
pub open spec fn spec_classify_name(
    name: Seq<char>,
    is_param: bool,
    config: Config,
) -> ArgTypeView {
    if name == "Self"@ {
        ArgTypeView::Self_
    } else if config.is_primitive(name) {
        ArgTypeView::Primitive(name)
    } else if is_param {
        ArgTypeView::Generic(name)
    } else if config.is_wrapped(name) {
        ArgTypeView::Wrapped(name)
    } else {
        ArgTypeView::Unsupported
    }
}

/// The message for a path that carries generic arguments.
pub open spec fn msg_generic_arguments() -> Seq<char> {
    "generic arguments are not supported"@
}

/// The message for an associated type reached through a qualified path.
pub open spec fn msg_qualified_path() -> Seq<char> {
    "qualified paths are not supported"@
}

/// The message for any other compound form.
pub open spec fn msg_not_simple() -> Seq<char> {
    "not a simple type"@
}

/// The classification of a type expression, or the message that says why it has none.
pub open spec fn spec_classify(type_: TypeExpr, config: Config) -> Result<ArgTypeView, Seq<char>>
    decreases type_,
{
    match type_ {
        TypeExpr::Named(n) => Ok(spec_classify_name(n@, false, config)),
        TypeExpr::Param(n) => Ok(spec_classify_name(n@, true, config)),
        TypeExpr::Primitive(n) => Ok(spec_classify_name(n@, false, config)),
        TypeExpr::Reference { mutable, inner } => match spec_classify(*inner, config) {
            Ok(a) => Ok(ArgTypeView::Ref { is_mut: mutable, ref_: Box::new(a) }),
            Err(m) => Err(m),
        },
        TypeExpr::Applied(_) => Err(msg_generic_arguments()),
        TypeExpr::Qualified(_) => Err(msg_qualified_path()),
        TypeExpr::Other => Err(msg_not_simple()),
    }
}

/// Whether a classified type is the declaring type, plain or behind references.
pub open spec fn spec_is_self(a: ArgTypeView) -> bool
    decreases a,
{
    match a {
        ArgTypeView::Self_ => true,
        ArgTypeView::Ref { ref_, .. } => spec_is_self(*ref_),
        _ => false,
    }
}

/// The name at the core of a classified type, behind any references. The declaring
/// type and an unsupported type have none.
pub open spec fn spec_base_ident(a: ArgTypeView) -> Option<Seq<char>>
    decreases a,
{
    match a {
        ArgTypeView::Self_ => None,
        ArgTypeView::Primitive(n) => Some(n),
        ArgTypeView::Ref { ref_, .. } => spec_base_ident(*ref_),
        ArgTypeView::Wrapped(n) => Some(n),
        ArgTypeView::Generic(n) => Some(n),
        ArgTypeView::Unsupported => None,
    }
}

/// The wrapper for a classified type. The declaring type is never wrapped; a
/// primitive is passed raw; a bound type that the configuration lists is passed
/// through its wrapper; for anything else there is no wrapper. References take the
/// wrapper of what they refer to.
pub open spec fn spec_with_config(a: ArgTypeView, config: Config) -> Option<ArgWrapperType>
    decreases a,
{
    match a {
        ArgTypeView::Self_ => Some(ArgWrapperType::Bare),
        ArgTypeView::Primitive(_) => Some(ArgWrapperType::Raw),
        ArgTypeView::Ref { ref_, .. } => spec_with_config(*ref_, config),
        ArgTypeView::Wrapped(n) => if config.is_wrapped(n) {
            Some(ArgWrapperType::Wrapped)
        } else {
            None
        },
        ArgTypeView::Generic(_) => None,
        ArgTypeView::Unsupported => None,
    }
}

/// A classified type as it is written in the generated text.
pub open spec fn spec_type_text(a: ArgTypeView) -> Seq<char>
    decreases a,
{
    match a {
        ArgTypeView::Self_ => "self"@,
        ArgTypeView::Primitive(n) => n,
        ArgTypeView::Ref { is_mut, ref_ } => if is_mut {
            "&mut "@ + spec_type_text(*ref_)
        } else {
            "&"@ + spec_type_text(*ref_)
        },
        ArgTypeView::Wrapped(n) => n,
        ArgTypeView::Generic(n) => n,
        ArgTypeView::Unsupported => "unsupported"@,
    }
}

/// An operand as it is written in the generated text: its type inside the marker of
/// its wrapper, or the bare type where it has none.
pub open spec fn spec_arg_text(a: ArgTypeView, w: ArgWrapperType) -> Seq<char> {
    match w {
        ArgWrapperType::Raw => "Raw("@ + spec_type_text(a) + ")"@,
        ArgWrapperType::Wrapped => "Wrapped("@ + spec_type_text(a) + ")"@,
        ArgWrapperType::Bare => spec_type_text(a),
    }
}

/// The view of the outcome of a classification.
pub open spec fn classified_view(r: Result<ArgType, String>) -> Result<ArgTypeView, Seq<char>> {
    match r {
        Ok(a) => Ok(a@),
        Err(m) => Err(m@),
    }
}

/// Classifies a name: that of a type parameter where `is_param` is set, else that
/// of a named type.
fn classify_name(name: &String, is_param: bool, config: &Config) -> (r: ArgType)
    ensures
        r@ == spec_classify_name(name@, is_param, *config),
{
    if same(name.as_str(), "Self") {
        ArgType::Self_
    } else if config.has_primitive(name.as_str()) {
        ArgType::Primitive(name.clone())
    } else if is_param {
        ArgType::Generic(name.clone())
    } else if config.has_type(name.as_str()) {
        ArgType::Wrapped(name.clone())
    } else {
        ArgType::Unsupported
    }
}

impl ArgType {
    /// Classifies a type expression against the tables of the configuration.
    pub fn from_type(type_: &TypeExpr, config: &Config) -> (r: Result<ArgType, String>)
        ensures
            classified_view(r) == spec_classify(*type_, *config),
        decreases type_,
    {
        match type_ {
            TypeExpr::Named(n) => Ok(classify_name(n, false, config)),
            TypeExpr::Param(n) => Ok(classify_name(n, true, config)),
            TypeExpr::Primitive(n) => Ok(classify_name(n, false, config)),
            TypeExpr::Reference { mutable, inner } => match ArgType::from_type(inner, config) {
                Ok(a) => Ok(ArgType::Ref { is_mut: *mutable, ref_: Box::new(a) }),
                Err(m) => Err(m),
            },
            TypeExpr::Applied(_) => Err(String::from_str("generic arguments are not supported")),
            TypeExpr::Qualified(_) => Err(String::from_str("qualified paths are not supported")),
            TypeExpr::Other => Err(String::from_str("not a simple type")),
        }
    }

    /// Whether this is the declaring type, plain or behind references.
    pub fn is_self(&self) -> (r: bool)
        ensures
            r == spec_is_self(self@),
        decreases self,
    {
        match self {
            ArgType::Self_ => true,
            ArgType::Ref { is_mut: _, ref_ } => ref_.is_self(),
            _ => false,
        }
    }

    /// Whether this is a reference.
    pub fn is_ref(&self) -> (r: bool)
        ensures
            r == (self@ is Ref),
    {
        match self {
            ArgType::Ref { .. } => true,
            _ => false,
        }
    }

    /// The name at the core of the type, behind any references.
    pub fn base_ident(&self) -> (r: Option<&String>)
        ensures
            match r {
                Some(n) => spec_base_ident(self@) == Some(n@),
                None => spec_base_ident(self@) is None,
            },
        decreases self,
    {
        match self {
            ArgType::Self_ => None,
            ArgType::Primitive(n) => Some(n),
            ArgType::Ref { is_mut: _, ref_ } => ref_.base_ident(),
            ArgType::Wrapped(n) => Some(n),
            ArgType::Generic(n) => Some(n),
            ArgType::Unsupported => None,
        }
    }

    /// Appends the type as it is written in the generated text.
    pub fn write(&self, out: &mut String)
        ensures
            final(out)@ == old(out)@ + spec_type_text(self@),
        decreases self,
    {
        match self {
            ArgType::Self_ => out.append("self"),
            ArgType::Primitive(n) => out.append(n.as_str()),
            ArgType::Ref { is_mut, ref_ } => {
                if *is_mut {
                    out.append("&mut ");
                } else {
                    out.append("&");
                }
                ref_.write(out);
                assert(out@ =~= old(out)@ + spec_type_text(self@));
            },
            ArgType::Wrapped(n) => out.append(n.as_str()),
            ArgType::Generic(n) => out.append(n.as_str()),
            ArgType::Unsupported => out.append("unsupported"),
        }
    }

    /// The type as it is written in the generated text.
    pub fn to_string(&self) -> (r: String)
        ensures
            r@ == spec_type_text(self@),
    {
        let mut r = String::new();
        self.write(&mut r);
        assert(r@ =~= spec_type_text(self@));
        r
    }
}

impl ArgWrapperType {
    /// Chooses the wrapper for a classified type. `self_type` is the name that the
    /// declaring type goes by; a value of the declaring type is never wrapped, so the
    /// choice is the same under every such name.
    pub fn with_config(self_type: &str, type_: &ArgType, config: &Config) -> (r: Option<
        ArgWrapperType,
    >)
        ensures
            r == spec_with_config(type_@, *config),
        decreases type_,
    {
        match type_ {
            ArgType::Self_ => Some(ArgWrapperType::Bare),
            ArgType::Primitive(_) => Some(ArgWrapperType::Raw),
            ArgType::Ref { is_mut: _, ref_ } => ArgWrapperType::with_config(
                self_type,
                ref_,
                config,
            ),
            ArgType::Wrapped(n) => if config.has_type(n.as_str()) {
                Some(ArgWrapperType::Wrapped)
            } else {
                None
            },
            ArgType::Generic(_) => None,
            ArgType::Unsupported => None,
        }
    }
}

/// An operand: a classified type with the wrapper chosen for it.
pub struct Arg {
    pub type_: ArgType,
    pub wrapper: ArgWrapperType,
}

impl Arg {
    /// An operand of the given type with the given wrapper.
    pub fn new(type_: ArgType, wrapper: ArgWrapperType) -> (r: Arg)
        ensures
            r.type_ == type_,
            r.wrapper == wrapper,
    {
        Arg { type_, wrapper }
    }

    /// Appends the operand as it is written in the generated text.
    pub fn write(&self, out: &mut String)
        ensures
            final(out)@ == old(out)@ + spec_arg_text(self.type_@, self.wrapper),
    {
        match self.wrapper {
            ArgWrapperType::Raw => {
                out.append("Raw(");
                self.type_.write(out);
                out.append(")");
            },
            ArgWrapperType::Wrapped => {
                out.append("Wrapped(");
                self.type_.write(out);
                out.append(")");
            },
            ArgWrapperType::Bare => {
                self.type_.write(out);
            },
        }
        assert(out@ =~= old(out)@ + spec_arg_text(self.type_@, self.wrapper));
    }

    /// The operand as it is written in the generated text.
    pub fn to_string(&self) -> (r: String)
        ensures
            r@ == spec_arg_text(self.type_@, self.wrapper),
    {
        let mut r = String::new();
        self.write(&mut r);
        assert(r@ =~= spec_arg_text(self.type_@, self.wrapper));
        r
    }
}

} // verus!
