//! The structural model of one class or interface, and its mathematical view.
use vstd::prelude::*;

verus! {

/// Access level of a declaration; `Default` when no modifier was written.
#[derive(Clone, Copy, Debug, PartialEq, Eq, Structural)]
pub enum AccessType {
    Default,
    Public,
    Private,
    Protected,
}

/// Whether a declaration is a class or an interface.
#[derive(Clone, Copy, Debug, PartialEq, Eq, Structural)]
pub enum ClassType {
    Class,
    Interface,
}

/// Why one source text yields no model.
#[derive(Clone, Copy, Debug, PartialEq, Eq, Structural)]
pub enum ParserError {
    /// No class or interface header was recognized.
    NoSignatureFound,
    /// A constructor parameter is not exactly a type and a name.
    MalformedParameter,
    /// A modifier token outside public, private and protected.
    UnrecognizedAccessToken,
    /// The pattern engine refused one of the library's patterns.
    PatternRejected,
}

pub struct ArgumentView {
    pub name: Seq<char>,
    pub ty: Seq<char>,
}

pub struct MemberView {
    pub access: AccessType,
    pub name: Seq<char>,
    pub ty: Seq<char>,
}

pub struct ConstructorView {
    pub access: AccessType,
    pub arguments: Seq<ArgumentView>,
}

pub struct MethodView {
    pub access: AccessType,
    pub is_static: bool,
    pub return_type: Option<Seq<char>>,
    pub name: Seq<char>,
    pub arguments: Seq<ArgumentView>,
}

pub struct SignatureView {
    pub access: AccessType,
    pub kind: ClassType,
    pub name: Seq<char>,
    pub superclass: Option<Seq<char>>,
    pub interfaces: Seq<Seq<char>>,
}

pub struct ClassView {
    pub signature: SignatureView,
    pub constructors: Seq<ConstructorView>,
    pub methods: Seq<MethodView>,
    pub members: Seq<MemberView>,
}

/// One parameter of a constructor or method.
#[derive(Debug)]
pub struct Argument {
    pub argument_name: String,
    pub argument_type: String,
}

/// One field declaration.
#[derive(Debug)]
pub struct Member {
    pub access_type: AccessType,
    pub member_name: String,
    pub member_type: String,
}

/// One constructor declaration.
#[derive(Debug)]
pub struct Constructor {
    pub access_type: AccessType,
    pub arguments: Vec<Argument>,
}

/// One method declaration; `return_type` is `None` for `void`.
#[derive(Debug)]
pub struct Method {
    pub access_type: AccessType,
    pub is_static: bool,
    pub return_type: Option<String>,
    pub method_name: String,
    pub arguments: Vec<Argument>,
}

/// The declared identity of a class or interface.
#[derive(Debug)]
pub struct ClassSignature {
    pub access_type: AccessType,
    pub class_type: ClassType,
    pub class_name: String,
    pub superclass_name: Option<String>,
    pub implemented_interfaces: Vec<String>,
}

/// Everything extracted from one source text.
#[derive(Debug)]
pub struct Class {
    pub class_signature: ClassSignature,
    pub constructors: Vec<Constructor>,
    pub methods: Vec<Method>,
    pub members: Vec<Member>,
}

impl View for Argument {
    type V = ArgumentView;

    open spec fn view(&self) -> ArgumentView {
        ArgumentView { name: self.argument_name@, ty: self.argument_type@ }
    }
}

impl DeepView for Argument {
    type V = ArgumentView;

    open spec fn deep_view(&self) -> ArgumentView {
        self@
    }
}

impl View for Member {
    type V = MemberView;

    open spec fn view(&self) -> MemberView {
        MemberView { access: self.access_type, name: self.member_name@, ty: self.member_type@ }
    }
}

impl DeepView for Member {
    type V = MemberView;

    open spec fn deep_view(&self) -> MemberView {
        self@
    }
}

impl View for Constructor {
    type V = ConstructorView;

    open spec fn view(&self) -> ConstructorView {
        ConstructorView { access: self.access_type, arguments: self.arguments.deep_view() }
    }
}

impl DeepView for Constructor {
    type V = ConstructorView;

    open spec fn deep_view(&self) -> ConstructorView {
        self@
    }
}

impl View for Method {
    type V = MethodView;

    open spec fn view(&self) -> MethodView {
        MethodView {
            access: self.access_type,
            is_static: self.is_static,
            return_type: self.return_type.deep_view(),
            name: self.method_name@,
            arguments: self.arguments.deep_view(),
        }
    }
}

impl DeepView for Method {
    type V = MethodView;

    open spec fn deep_view(&self) -> MethodView {
        self@
    }
}

impl View for ClassSignature {
    type V = SignatureView;

    open spec fn view(&self) -> SignatureView {
        SignatureView {
            access: self.access_type,
            kind: self.class_type,
            name: self.class_name@,
            superclass: self.superclass_name.deep_view(),
            interfaces: self.implemented_interfaces.deep_view(),
        }
    }
}

impl DeepView for ClassSignature {
    type V = SignatureView;

    open spec fn deep_view(&self) -> SignatureView {
        self@
    }
}

impl View for Class {
    type V = ClassView;

    open spec fn view(&self) -> ClassView {
        ClassView {
            signature: self.class_signature@,
            constructors: self.constructors.deep_view(),
            methods: self.methods.deep_view(),
            members: self.members.deep_view(),
        }
    }
}

impl DeepView for Class {
    type V = ClassView;

    open spec fn deep_view(&self) -> ClassView {
        self@
    }
}

/// The view of a result whose error is a `ParserError`.
pub open spec fn result_view<T: DeepView>(r: Result<T, ParserError>) -> Result<T::V, ParserError> {
    match r {
        Ok(t) => Ok(t.deep_view()),
        Err(e) => Err(e),
    }
}

} // verus!
