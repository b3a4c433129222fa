use vstd::prelude::*;

verus! {

/// A type of the Raptor language, as the semantic checker sees it.
///
/// `Named` is a reference to a user-declared struct or enum that has not been
/// resolved yet; resolution turns it into `Struct` or `Enum`.
#[derive(Debug, PartialEq, Eq)]
pub enum Type {
    I64,
    F64,
    Str,
    Bool,
    Char,
    Void,
    Vector(Box<Type>),
    Struct(String),
    Enum(String),
    Named(String),
}

/// The mathematical model of a `Type`: identifiers are taken by their characters.
pub enum TypeModel {
    I64,
    F64,
    Str,
    Bool,
    Char,
    Void,
    Vector(Box<TypeModel>),
    Struct(Seq<char>),
    Enum(Seq<char>),
    Named(Seq<char>),
}

impl Type {
    pub open spec fn model(self) -> TypeModel
        decreases self,
    {
        match self {
            Type::I64 => TypeModel::I64,
            Type::F64 => TypeModel::F64,
            Type::Str => TypeModel::Str,
            Type::Bool => TypeModel::Bool,
            Type::Char => TypeModel::Char,
            Type::Void => TypeModel::Void,
            Type::Vector(inner) => TypeModel::Vector(Box::new((*inner).model())),
            Type::Struct(name) => TypeModel::Struct(name@),
            Type::Enum(name) => TypeModel::Enum(name@),
            Type::Named(name) => TypeModel::Named(name@),
        }
    }
}

impl View for Type {
    type V = TypeModel;

    open spec fn view(&self) -> TypeModel {
        self.model()
    }
}

/// A type and its model are of the same variant.
pub proof fn lemma_model_variant(t: Type)
    ensures
        t is I64 <==> t@ is I64,
        t is F64 <==> t@ is F64,
        t is Str <==> t@ is Str,
        t is Bool <==> t@ is Bool,
        t is Char <==> t@ is Char,
        t is Void <==> t@ is Void,
        t is Vector <==> t@ is Vector,
        t is Struct <==> t@ is Struct,
        t is Enum <==> t@ is Enum,
        t is Named <==> t@ is Named,
{
}

/// `expected` accepts a value of type `actual`: the types are equal, or `expected`
/// is a vector type and `actual` is the type of the empty vector literal `[]`.
pub open spec fn compatible(expected: TypeModel, actual: TypeModel) -> bool {
    ||| expected == actual
    ||| (expected is Vector && actual == TypeModel::Vector(Box::new(TypeModel::Void)))
}

impl Type {
    /// Structural equality of two types.
    pub fn same_as(&self, other: &Type) -> (r: bool)
        ensures
            r == (self@ == other@),
        decreases self,
    {
        proof {
            lemma_model_variant(*self);
            lemma_model_variant(*other);
        }
        match self {
            Type::I64 => match other {
                Type::I64 => true,
                _ => false,
            },
            Type::F64 => match other {
                Type::F64 => true,
                _ => false,
            },
            Type::Str => match other {
                Type::Str => true,
                _ => false,
            },
            Type::Bool => match other {
                Type::Bool => true,
                _ => false,
            },
            Type::Char => match other {
                Type::Char => true,
                _ => false,
            },
            Type::Void => match other {
                Type::Void => true,
                _ => false,
            },
            Type::Vector(a) => match other {
                Type::Vector(b) => {
                    let r = (**a).same_as(&**b);
                    proof {
                        if !r {
                            assert(self@->Vector_0 != other@->Vector_0);
                        }
                    }
                    r
                },
                _ => false,
            },
            Type::Struct(a) => match other {
                Type::Struct(b) => *a == *b,
                _ => false,
            },
            Type::Enum(a) => match other {
                Type::Enum(b) => *a == *b,
                _ => false,
            },
            Type::Named(a) => match other {
                Type::Named(b) => *a == *b,
                _ => false,
            },
        }
    }

    /// A copy of this type.
    pub fn duplicate(&self) -> (r: Type)
        ensures
            r@ == self@,
        decreases self,
    {
        match self {
            Type::I64 => Type::I64,
            Type::F64 => Type::F64,
            Type::Str => Type::Str,
            Type::Bool => Type::Bool,
            Type::Char => Type::Char,
            Type::Void => Type::Void,
            Type::Vector(inner) => Type::Vector(Box::new((**inner).duplicate())),
            Type::Struct(name) => Type::Struct(name.clone()),
            Type::Enum(name) => Type::Enum(name.clone()),
            Type::Named(name) => Type::Named(name.clone()),
        }
    }

    /// Whether this type is `bool`.
    pub fn is_bool(&self) -> (r: bool)
        ensures
            r == (self@ == TypeModel::Bool),
    {
        match self {
            Type::Bool => true,
            _ => false,
        }
    }

    /// Whether this type is `void`.
    pub fn is_void(&self) -> (r: bool)
        ensures
            r == (self@ == TypeModel::Void),
    {
        match self {
            Type::Void => true,
            _ => false,
        }
    }

    /// Whether this type is the type of the empty vector literal, `void[]`.
    pub fn is_empty_vector(&self) -> (r: bool)
        ensures
            r == (self@ == TypeModel::Vector(Box::new(TypeModel::Void))),
    {
        match self {
            Type::Vector(inner) => inner.is_void(),
            _ => false,
        }
    }

    /// A variable of type `self` accepts a value of type `actual`.
    pub fn is_compatible(&self, actual: &Type) -> (r: bool)
        ensures
            r == compatible(self@, actual@),
    {
        if self.same_as(actual) {
            true
        } else {
            match self {
                Type::Vector(_) => actual.is_empty_vector(),
                _ => false,
            }
        }
    }
}

} // verus!

verus! {

/// A variant of a user-declared enum, with the type of its payload, if any.
#[derive(Debug, PartialEq, Eq)]
pub struct EnumVariant {
    pub name: String,
    pub payload: Option<Type>,
}

/// The model of an `EnumVariant`.
pub struct EnumVariantModel {
    pub name: Seq<char>,
    pub payload: Option<TypeModel>,
}

impl View for EnumVariant {
    type V = EnumVariantModel;

    open spec fn view(&self) -> EnumVariantModel {
        EnumVariantModel {
            name: self.name@,
            payload: match self.payload {
                Some(t) => Some(t@),
                None => None,
            },
        }
    }
}

/// A user type declaration: a struct or an enum with its variants.
#[derive(Debug, PartialEq, Eq)]
pub enum TypeDefinition {
    Struct { name: String },
    Enum { name: String, variants: Vec<EnumVariant> },
}

/// The model of a `TypeDefinition`.
pub enum TypeDefinitionModel {
    Struct { name: Seq<char> },
    Enum { name: Seq<char>, variants: Seq<EnumVariantModel> },
}

impl View for TypeDefinition {
    type V = TypeDefinitionModel;

    open spec fn view(&self) -> TypeDefinitionModel {
        match self {
            TypeDefinition::Struct { name } => TypeDefinitionModel::Struct { name: name@ },
            TypeDefinition::Enum { name, variants } => TypeDefinitionModel::Enum {
                name: name@,
                variants: variants@.map_values(|v: EnumVariant| v@),
            },
        }
    }
}

impl TypeDefinitionModel {
    pub open spec fn name(self) -> Seq<char> {
        match self {
            TypeDefinitionModel::Struct { name } => name,
            TypeDefinitionModel::Enum { name, .. } => name,
        }
    }
}

} // verus!

verus! {

impl Type {
    /// Whether this type is `i64`.
    pub fn is_i64(&self) -> (r: bool)
        ensures
            r == (self@ == TypeModel::I64),
    {
        match self {
            Type::I64 => true,
            _ => false,
        }
    }
}

} // verus!

verus! {

impl EnumVariant {
    pub fn duplicate(&self) -> (r: EnumVariant)
        ensures
            r@ == self@,
    {
        EnumVariant {
            name: self.name.clone(),
            payload: match &self.payload {
                Some(t) => Some(t.duplicate()),
                None => None,
            },
        }
    }
}

/// The models of a list of variants.
pub open spec fn variants_view(vs: Seq<EnumVariant>) -> Seq<EnumVariantModel> {
    vs.map_values(|v: EnumVariant| v@)
}

} // verus!
