//! Source-level names, spans, and written type syntax.

use crate::text::{same_text, share};
use std::rc::Rc;
use vstd::prelude::*;

verus! {

/// A name as it is written in source text.
#[derive(Debug, Hash)]
pub struct Ident(pub String);

impl View for Ident {
    type V = Seq<char>;

    open spec fn view(&self) -> Seq<char> {
        self.0@
    }
}

impl Ident {
    /// The name spelled by `text`.
    pub fn new(text: &str) -> (name: Self)
        ensures
            name@ == text@,
    {
        Ident(text.to_owned())
    }

    /// The spelling of this name.
    pub fn as_ref(&self) -> (text: &str)
        ensures
            text@ == self@,
    {
        self.0.as_str()
    }
}

impl Clone for Ident {
    fn clone(&self) -> (copy: Self)
        ensures
            copy == *self,
    {
        Ident(self.0.clone())
    }
}

impl PartialEq for Ident {
    fn eq(&self, other: &Self) -> (same: bool) {
        self.0 == other.0
    }
}

impl vstd::std_specs::cmp::PartialEqSpecImpl for Ident {
    open spec fn obeys_eq_spec() -> bool {
        true
    }

    open spec fn eq_spec(&self, other: &Self) -> bool {
        self@ == other@
    }
}

impl Eq for Ident {

}

/// The spellings of a list of names.
pub open spec fn names_view(names: Seq<Ident>) -> Seq<Seq<char>> {
    names.map_values(|name: Ident| name@)
}

/// A copy of a list of names.
pub fn copy_names(names: &Vec<Ident>) -> (copy: Vec<Ident>)
    ensures
        copy@ == names@,
{
    let mut copy: Vec<Ident> = Vec::new();
    let mut i: usize = 0;
    while i < names.len()
        invariant
            i <= names@.len(),
            copy@ =~= names@.take(i as int),
        decreases names.len() - i,
    {
        copy.push(names[i].clone());
        i = i + 1;
    }
    copy
}

/// Whether two lists of names spell the same path.
pub fn same_names(a: &Vec<Ident>, b: &Vec<Ident>) -> (same: bool)
    ensures
        same == (names_view(a@) == names_view(b@)),
{
    if a.len() != b.len() {
        assert(names_view(a@).len() != names_view(b@).len());
        return false;
    }
    let mut i: usize = 0;
    while i < a.len()
        invariant
            i <= a@.len() == b@.len(),
            forall|k: int| 0 <= k < i ==> a@[k]@ == b@[k]@,
        decreases a.len() - i,
    {
        if !same_text(a[i].as_ref(), b[i].as_ref()) {
            assert(names_view(a@)[i as int] != names_view(b@)[i as int]);
            return false;
        }
        i = i + 1;
    }
    assert(names_view(a@) =~= names_view(b@));
    true
}

/// A half-open byte range of one source file.
#[derive(Debug, Clone, Copy, PartialEq, Eq, Hash, Structural)]
pub struct Span {
    pub start: usize,
    pub end: usize,
}

impl Span {
    pub fn new(start: usize, end: usize) -> (span: Self)
        ensures
            span == (Span { start, end }),
    {
        Span { start, end }
    }
}

/// Which expansion a piece of syntax came from.
#[derive(Debug, Clone, Copy, PartialEq, Eq, Hash, Structural)]
pub struct Origin(pub u32);

/// Who may name a declaration.
#[derive(Debug, Clone, Copy, PartialEq, Eq, Hash, Structural)]
pub enum Visibility {
    Hidden,
    Internal,
    Exposed,
}

impl Visibility {
    /// How this visibility is written.
    pub open spec fn spelling(self) -> Seq<char> {
        match self {
            Visibility::Hidden => "hidden"@,
            Visibility::Internal => "internal"@,
            Visibility::Exposed => "exposed"@,
        }
    }

    pub fn word(self) -> (text: &'static str)
        ensures
            text@ == self.spelling(),
    {
        match self {
            Visibility::Hidden => "hidden",
            Visibility::Internal => "internal",
            Visibility::Exposed => "exposed",
        }
    }
}

/// The receiver form a function declares.
#[derive(Debug, Clone, Copy, PartialEq, Eq, Hash, Structural)]
pub enum SelfMode {
    Value,
    MutValue,
    Pointer,
    MutPointer,
}

/// A written path. `anchored` is set where the path starts with an explicit
/// `root::`, `self::`, or `super::`.
#[derive(Debug)]
pub struct Path {
    pub anchored: bool,
    pub head: Ident,
    pub tail: Vec<Ident>,
}

impl Path {
    /// The path that is just one name.
    pub fn from_ident(head: Ident) -> (path: Self)
        ensures
            path.head == head,
            path.unqualified(),
    {
        Path { anchored: false, head, tail: Vec::new() }
    }

    /// One bare name, with neither an anchor nor further segments.
    pub open spec fn unqualified(&self) -> bool {
        !self.anchored && self.tail@.len() == 0
    }

    pub fn is_unqualified(&self) -> (r: bool)
        ensures
            r == self.unqualified(),
    {
        !self.anchored && self.tail.len() == 0
    }

    /// All names of the path, in order.
    pub open spec fn all_segments(&self) -> Seq<Ident> {
        seq![self.head] + self.tail@
    }

    pub fn segments(&self) -> (names: Vec<Ident>)
        ensures
            names@ == self.all_segments(),
    {
        let mut names: Vec<Ident> = Vec::new();
        names.push(self.head.clone());
        let mut rest: Vec<Ident> = copy_names(&self.tail);
        names.append(&mut rest);
        assert(names@ =~= self.all_segments());
        names
    }
}

/// An integer literal's digits, as written.
#[derive(Debug)]
pub struct NumberLiteral {
    pub integer_part: String,
}

impl Clone for NumberLiteral {
    fn clone(&self) -> (copy: Self)
        ensures
            copy == *self,
    {
        NumberLiteral { integer_part: self.integer_part.clone() }
    }
}

/// A scalar literal in compile-time position.
#[derive(Debug)]
pub enum CompLiteral {
    Int { negative: bool, number: NumberLiteral },
    Bool(bool),
    Char(char),
}

impl Clone for CompLiteral {
    fn clone(&self) -> (copy: Self)
        ensures
            copy == *self,
    {
        match self {
            CompLiteral::Int { negative, number } => CompLiteral::Int {
                negative: *negative,
                number: number.clone(),
            },
            CompLiteral::Bool(value) => CompLiteral::Bool(*value),
            CompLiteral::Char(value) => CompLiteral::Char(*value),
        }
    }
}

/// A written fixed-array length.
#[derive(Debug)]
pub enum ArrayLength {
    Literal(CompLiteral),
    Path(Rc<Path>),
}

impl Clone for ArrayLength {
    fn clone(&self) -> (copy: Self)
        ensures
            copy == *self,
    {
        match self {
            ArrayLength::Literal(literal) => ArrayLength::Literal(literal.clone()),
            ArrayLength::Path(path) => ArrayLength::Path(share(path)),
        }
    }
}

/// One written generic argument.
#[derive(Debug)]
pub enum GenericArg {
    Type(Type),
    Value(CompLiteral),
}

/// One parameter of a written function type.
#[derive(Debug)]
pub struct FunctionTypeParam {
    pub name: Option<Ident>,
    pub ty: Type,
}

/// A written function type.
#[derive(Debug)]
pub struct FunctionType {
    pub params: Vec<FunctionTypeParam>,
    pub return_type: Type,
}

/// A type as it is written in source text.
#[derive(Debug)]
pub enum Type {
    Named(Rc<Path>),
    Generic(Rc<Path>, Rc<Vec<GenericArg>>),
    Pointer(Rc<Type>, bool),
    UnknownSizeArray(Rc<Type>),
    InferredArray(Rc<Type>),
    SizedArray(Rc<Type>, ArrayLength),
    Function(Rc<FunctionType>),
    SpecStatic(Rc<Vec<Type>>),
    AnonymousEnum(Rc<Vec<Type>>),
}

impl Clone for Type {
    fn clone(&self) -> (copy: Self)
        ensures
            copy == *self,
    {
        match self {
            Type::Named(path) => Type::Named(share(path)),
            Type::Generic(path, args) => Type::Generic(share(path), share(args)),
            Type::Pointer(inner, mutable) => Type::Pointer(share(inner), *mutable),
            Type::UnknownSizeArray(inner) => Type::UnknownSizeArray(share(inner)),
            Type::InferredArray(inner) => Type::InferredArray(share(inner)),
            Type::SizedArray(inner, length) => Type::SizedArray(share(inner), length.clone()),
            Type::Function(function) => Type::Function(share(function)),
            Type::SpecStatic(members) => Type::SpecStatic(share(members)),
            Type::AnonymousEnum(members) => Type::AnonymousEnum(share(members)),
        }
    }
}

impl Clone for GenericArg {
    fn clone(&self) -> (copy: Self)
        ensures
            copy == *self,
    {
        match self {
            GenericArg::Type(ty) => GenericArg::Type(ty.clone()),
            GenericArg::Value(literal) => GenericArg::Value(literal.clone()),
        }
    }
}

/// What a generic parameter binds.
#[derive(Debug)]
pub enum GenericParamKind {
    Type { bounds: Rc<Vec<Type>> },
    Comp { ty: Type },
}

impl Clone for GenericParamKind {
    fn clone(&self) -> (copy: Self)
        ensures
            copy == *self,
    {
        match self {
            GenericParamKind::Type { bounds } => GenericParamKind::Type { bounds: share(bounds) },
            GenericParamKind::Comp { ty } => GenericParamKind::Comp { ty: ty.clone() },
        }
    }
}

/// A binary operator.
#[derive(Debug, Clone, Copy, PartialEq, Eq, Hash, Structural)]
pub enum BinaryOp {
    Add,
    Sub,
    Mul,
    Div,
    Rem,
    BitAnd,
    BitOr,
    BitXor,
    Shl,
    Shr,
    Eq,
    Ne,
    Lt,
    Le,
    Gt,
    Ge,
}

impl BinaryOp {
    /// The operator's spelling.
    pub open spec fn spelling(self) -> Seq<char> {
        match self {
            BinaryOp::Add => "+"@,
            BinaryOp::Sub => "-"@,
            BinaryOp::Mul => "*"@,
            BinaryOp::Div => "/"@,
            BinaryOp::Rem => "%"@,
            BinaryOp::BitAnd => "&"@,
            BinaryOp::BitOr => "|"@,
            BinaryOp::BitXor => "^"@,
            BinaryOp::Shl => "<<"@,
            BinaryOp::Shr => ">>"@,
            BinaryOp::Eq => "=="@,
            BinaryOp::Ne => "!="@,
            BinaryOp::Lt => "<"@,
            BinaryOp::Le => "<="@,
            BinaryOp::Gt => ">"@,
            BinaryOp::Ge => ">="@,
        }
    }

    pub fn symbol(self) -> (text: &'static str)
        ensures
            text@ == self.spelling(),
    {
        match self {
            BinaryOp::Add => "+",
            BinaryOp::Sub => "-",
            BinaryOp::Mul => "*",
            BinaryOp::Div => "/",
            BinaryOp::Rem => "%",
            BinaryOp::BitAnd => "&",
            BinaryOp::BitOr => "|",
            BinaryOp::BitXor => "^",
            BinaryOp::Shl => "<<",
            BinaryOp::Shr => ">>",
            BinaryOp::Eq => "==",
            BinaryOp::Ne => "!=",
            BinaryOp::Lt => "<",
            BinaryOp::Le => "<=",
            BinaryOp::Gt => ">",
            BinaryOp::Ge => ">=",
        }
    }
}

/// The value of one annotation argument.
#[derive(Debug)]
pub enum AnnotationValue {
    Name(Ident),
    Bool(bool),
    Number(i128),
    Text(String),
}

/// One argument of an annotation.
#[derive(Debug)]
pub enum AnnotationArg {
    Positional(AnnotationValue),
    Named(Ident, AnnotationValue),
}

impl AnnotationArg {
    /// The name this argument spells, if it is nothing but a name.
    pub open spec fn bare(&self) -> Option<Ident> {
        match *self {
            AnnotationArg::Positional(AnnotationValue::Name(name)) => Some(name),
            _ => None,
        }
    }

    pub fn bare_name(&self) -> (name: Option<&Ident>)
        ensures
            match name {
                Some(found) => self.bare() == Some(*found),
                None => self.bare() is None,
            },
    {
        match self {
            AnnotationArg::Positional(AnnotationValue::Name(name)) => Some(name),
            _ => None,
        }
    }
}

/// An annotation as it is written.
#[derive(Debug)]
pub struct AnnotationNode {
    pub name: Ident,
    pub args: Vec<AnnotationArg>,
    pub span: Span,
    pub origin: Origin,
}

} // verus!
