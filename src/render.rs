//! Rendering of a class model: a readable summary and PlantUML markup.
//!
//! The summary lists the signature, then one line per field, constructor and method. The
//! markup holds one class block with the fields and methods; constructors, the superclass
//! and the interfaces appear in the summary only. Protected declarations carry the marker
//! `#` in the summary.
use vstd::prelude::*;
use crate::model::{
    AccessType, Argument, ArgumentView, Class, ClassType, ClassView, Constructor,
    ConstructorView, Member, MemberView, Method, MethodView, SignatureView,
};

verus! {

/// The access keyword of a signature: empty for `Default`.
pub open spec fn access_word(a: AccessType) -> Seq<char> {
    match a {
        AccessType::Default => ""@,
        AccessType::Public => "public"@,
        AccessType::Private => "private"@,
        AccessType::Protected => "protected"@,
    }
}

/// The marker of a declaration in the summary.
pub open spec fn marker(a: AccessType) -> Seq<char> {
    match a {
        AccessType::Default => " "@,
        AccessType::Public => "+"@,
        AccessType::Private => "-"@,
        AccessType::Protected => "#"@,
    }
}

/// `name: type`.
pub open spec fn argument_text(a: ArgumentView) -> Seq<char> {
    a.name + ": "@ + a.ty
}

/// The arguments, each as `name: type`, separated by `, `.
pub open spec fn joined(args: Seq<ArgumentView>) -> Seq<char>
    decreases args.len(),
{
    if args.len() == 0 {
        Seq::empty()
    } else if args.len() == 1 {
        argument_text(args[0])
    } else {
        joined(args.drop_last()) + ", "@ + argument_text(args.last())
    }
}

/// The return type as written, `void` when there is none.
pub open spec fn return_text(r: Option<Seq<char>>) -> Seq<char> {
    match r {
        Some(t) => t,
        None => "void"@,
    }
}

/// The concatenation of `f` over `items`, in order.
pub open spec fn lines<T>(items: Seq<T>, f: spec_fn(T) -> Seq<char>) -> Seq<char>
    decreases items.len(),
{
    if items.len() == 0 {
        Seq::empty()
    } else {
        lines(items.drop_last(), f) + f(items.last())
    }
}

pub open spec fn interface_line(i: Seq<char>) -> Seq<char> {
    "implements "@ + i + "\n"@
}

pub open spec fn interface_line_fn() -> spec_fn(Seq<char>) -> Seq<char> {
    |i: Seq<char>| interface_line(i)
}

pub open spec fn member_line(m: MemberView) -> Seq<char> {
    marker(m.access) + " "@ + m.name + ": "@ + m.ty + "\n"@
}

pub open spec fn member_line_fn() -> spec_fn(MemberView) -> Seq<char> {
    |m: MemberView| member_line(m)
}

pub open spec fn constructor_line(class_name: Seq<char>, c: ConstructorView) -> Seq<char> {
    marker(c.access) + " "@ + class_name + "("@ + joined(c.arguments) + ")\n"@
}

pub open spec fn constructor_line_fn(class_name: Seq<char>) -> spec_fn(ConstructorView) -> Seq<char> {
    |c: ConstructorView| constructor_line(class_name, c)
}

pub open spec fn method_line(m: MethodView) -> Seq<char> {
    marker(m.access) + " "@ + m.name + "("@ + joined(m.arguments) + "): "@ + return_text(
        m.return_type,
    ) + (if m.is_static {
        " [static]"@
    } else {
        Seq::empty()
    }) + "\n"@
}

pub open spec fn method_line_fn() -> spec_fn(MethodView) -> Seq<char> {
    |m: MethodView| method_line(m)
}

/// The summary lines that the signature gives.
pub open spec fn signature_lines(s: SignatureView) -> Seq<char> {
    access_word(s.access) + "\n"@ + (if s.kind == ClassType::Interface {
        "<<interface>>\n"@
    } else {
        Seq::empty()
    }) + s.name + "\n"@ + (match s.superclass {
        Some(x) => "extends "@ + x + "\n"@,
        None => Seq::empty(),
    }) + lines(s.interfaces, interface_line_fn())
}

/// The readable summary of a class.
pub open spec fn summary(c: ClassView) -> Seq<char> {
    signature_lines(c.signature) + lines(c.members, member_line_fn()) + lines(
        c.constructors,
        constructor_line_fn(c.signature.name),
    ) + lines(c.methods, method_line_fn())
}

pub open spec fn member_markup(m: MemberView) -> Seq<char> {
    m.ty + " "@ + m.name + "\n"@
}

pub open spec fn member_markup_fn() -> spec_fn(MemberView) -> Seq<char> {
    |m: MemberView| member_markup(m)
}

pub open spec fn method_markup(m: MethodView) -> Seq<char> {
    return_text(m.return_type) + " "@ + m.name + "("@ + joined(m.arguments) + ")\n"@
}

pub open spec fn method_markup_fn() -> spec_fn(MethodView) -> Seq<char> {
    |m: MethodView| method_markup(m)
}

/// The PlantUML description of a class.
pub open spec fn markup(c: ClassView) -> Seq<char> {
    "@startuml\n"@ + "class "@ + c.signature.name + " {\n"@ + lines(c.members, member_markup_fn())
        + lines(c.methods, method_markup_fn()) + "}\n"@ + "@enduml\n"@
}

fn access_keyword(a: AccessType) -> (r: &'static str)
    ensures
        r@ == access_word(a),
{
    match a {
        AccessType::Default => "",
        AccessType::Public => "public",
        AccessType::Private => "private",
        AccessType::Protected => "protected",
    }
}

fn access_marker(a: AccessType) -> (r: &'static str)
    ensures
        r@ == marker(a),
{
    match a {
        AccessType::Default => " ",
        AccessType::Public => "+",
        AccessType::Private => "-",
        AccessType::Protected => "#",
    }
}

/// The arguments as `name: type`, separated by `, `.
pub fn arguments_text(args: &Vec<Argument>) -> (r: String)
    ensures
        r@ == joined(args.deep_view()),
{
    let ghost a = args.deep_view();
    let mut out = String::new();
    let mut i: usize = 0;
    proof {
        assert(a.take(0) =~= Seq::<ArgumentView>::empty());
    }
    while i < args.len()
        invariant
            a == args.deep_view(),
            i <= args.len(),
            out@ == joined(a.take(i as int)),
        decreases args.len() - i,
    {
        let ghost before = out@;
        proof {
            assert(a.take(i + 1).drop_last() =~= a.take(i as int));
            assert(a.take(i + 1).last() == a[i as int]);
        }
        if i > 0 {
            out.append(", ");
        }
        out.append(args[i].argument_name.as_str());
        out.append(": ");
        out.append(args[i].argument_type.as_str());
        proof {
            if i == 0 {
                assert(out@ =~= argument_text(a[0]));
            } else {
                assert(out@ =~= before + ", "@ + argument_text(a[i as int]));
            }
        }
        i = i + 1;
    }
    proof {
        assert(a.take(i as int) =~= a);
    }
    out
}

fn member_text(m: &Member) -> (r: String)
    ensures
        r@ == member_line(m@),
{
    let mut out = String::from_str(access_marker(m.access_type));
    out.append(" ");
    out.append(m.member_name.as_str());
    out.append(": ");
    out.append(m.member_type.as_str());
    out.append("\n");
    proof {
        assert(out@ =~= member_line(m@));
    }
    out
}

fn constructor_text(class_name: &String, c: &Constructor) -> (r: String)
    ensures
        r@ == constructor_line(class_name@, c@),
{
    let mut out = String::from_str(access_marker(c.access_type));
    out.append(" ");
    out.append(class_name.as_str());
    out.append("(");
    let args = arguments_text(&c.arguments);
    out.append(args.as_str());
    out.append(")\n");
    proof {
        assert(out@ =~= constructor_line(class_name@, c@));
    }
    out
}

fn return_type_text(r: &Option<String>) -> (s: &str)
    ensures
        s@ == return_text(r.deep_view()),
{
    match r {
        Some(t) => t.as_str(),
        None => "void",
    }
}

fn method_text(m: &Method) -> (r: String)
    ensures
        r@ == method_line(m@),
{
    let mut out = String::from_str(access_marker(m.access_type));
    out.append(" ");
    out.append(m.method_name.as_str());
    out.append("(");
    let args = arguments_text(&m.arguments);
    out.append(args.as_str());
    out.append("): ");
    out.append(return_type_text(&m.return_type));
    if m.is_static {
        out.append(" [static]");
    }
    out.append("\n");
    proof {
        assert(out@ =~= method_line(m@));
    }
    out
}

fn member_markup_text(m: &Member) -> (r: String)
    ensures
        r@ == member_markup(m@),
{
    let mut out = String::from_str(m.member_type.as_str());
    out.append(" ");
    out.append(m.member_name.as_str());
    out.append("\n");
    proof {
        assert(out@ =~= member_markup(m@));
    }
    out
}

fn method_markup_text(m: &Method) -> (r: String)
    ensures
        r@ == method_markup(m@),
{
    let mut out = String::from_str(return_type_text(&m.return_type));
    out.append(" ");
    out.append(m.method_name.as_str());
    out.append("(");
    let args = arguments_text(&m.arguments);
    out.append(args.as_str());
    out.append(")\n");
    proof {
        assert(out@ =~= method_markup(m@));
    }
    out
}

impl Class {
    /// The readable summary: the access keyword, an interface marker, the name, the
    /// superclass and interfaces, then one line per field, constructor and method.
    pub fn to_str(&self) -> (r: String)
        ensures
            r@ == summary(self@),
    {
        let sig = &self.class_signature;
        let mut out = String::from_str(access_keyword(sig.access_type));
        out.append("\n");
        if sig.class_type == ClassType::Interface {
            out.append("<<interface>>\n");
        }
        out.append(sig.class_name.as_str());
        out.append("\n");
        match &sig.superclass_name {
            Some(x) => {
                out.append("extends ");
                out.append(x.as_str());
                out.append("\n");
            },
            None => {},
        }
        proof {
            assert(out@ =~= signature_lines(sig@).subrange(
                0,
                out@.len() as int,
            ));
        }
        let ghost items = sig.implemented_interfaces.deep_view();
        let ghost start = out@;
        let mut i: usize = 0;
        proof {
            assert(items.take(0) =~= Seq::<Seq<char>>::empty());
            assert(out@ =~= start + lines(items.take(0), interface_line_fn()));
        }
        while i < sig.implemented_interfaces.len()
            invariant
                items == sig.implemented_interfaces.deep_view(),
                i <= sig.implemented_interfaces.len(),
                out@ == start + lines(items.take(i as int), interface_line_fn()),
            decreases sig.implemented_interfaces.len() - i,
        {
            let line = {
                let mut l = String::from_str("implements ");
                l.append(sig.implemented_interfaces[i].as_str());
                l.append("\n");
                l
            };
            let ghost before = out@;
            out.append(line.as_str());
            proof {
                assert(items.take(i + 1).drop_last() =~= items.take(i as int));
                assert(items.take(i + 1).last() == items[i as int]);
                assert(out@ =~= start + lines(items.take(i + 1), interface_line_fn()));
            }
            i = i + 1;
        }
        proof {
            assert(items.take(i as int) =~= items);
        }
        proof {
            assert(out@ =~= signature_lines(sig@));
        }
        let ghost head = out@;
        let ghost items = self.members.deep_view();
        let ghost start = out@;
        let mut i: usize = 0;
        proof {
            assert(items.take(0) =~= Seq::<MemberView>::empty());
            assert(out@ =~= start + lines(items.take(0), member_line_fn()));
        }
        while i < self.members.len()
            invariant
                items == self.members.deep_view(),
                i <= self.members.len(),
                out@ == start + lines(items.take(i as int), member_line_fn()),
            decreases self.members.len() - i,
        {
            let line = member_text(&self.members[i]);
            let ghost before = out@;
            out.append(line.as_str());
            proof {
                assert(items.take(i + 1).drop_last() =~= items.take(i as int));
                assert(items.take(i + 1).last() == items[i as int]);
                assert(out@ =~= start + lines(items.take(i + 1), member_line_fn()));
            }
            i = i + 1;
        }
        proof {
            assert(items.take(i as int) =~= items);
        }
        let ghost items = self.constructors.deep_view();
        let ghost start = out@;
        let mut i: usize = 0;
        proof {
            assert(items.take(0) =~= Seq::<ConstructorView>::empty());
            assert(out@ =~= start + lines(items.take(0), constructor_line_fn(sig.class_name@)));
        }
        while i < self.constructors.len()
            invariant
                items == self.constructors.deep_view(),
                i <= self.constructors.len(),
                out@ == start + lines(items.take(i as int), constructor_line_fn(sig.class_name@)),
            decreases self.constructors.len() - i,
        {
            let line = constructor_text(&sig.class_name, &self.constructors[i]);
            let ghost before = out@;
            out.append(line.as_str());
            proof {
                assert(items.take(i + 1).drop_last() =~= items.take(i as int));
                assert(items.take(i + 1).last() == items[i as int]);
                assert(out@ =~= start + lines(items.take(i + 1), constructor_line_fn(sig.class_name@)));
            }
            i = i + 1;
        }
        proof {
            assert(items.take(i as int) =~= items);
        }
        let ghost items = self.methods.deep_view();
        let ghost start = out@;
        let mut i: usize = 0;
        proof {
            assert(items.take(0) =~= Seq::<MethodView>::empty());
            assert(out@ =~= start + lines(items.take(0), method_line_fn()));
        }
        while i < self.methods.len()
            invariant
                items == self.methods.deep_view(),
                i <= self.methods.len(),
                out@ == start + lines(items.take(i as int), method_line_fn()),
            decreases self.methods.len() - i,
        {
            let line = method_text(&self.methods[i]);
            let ghost before = out@;
            out.append(line.as_str());
            proof {
                assert(items.take(i + 1).drop_last() =~= items.take(i as int));
                assert(items.take(i + 1).last() == items[i as int]);
                assert(out@ =~= start + lines(items.take(i + 1), method_line_fn()));
            }
            i = i + 1;
        }
        proof {
            assert(items.take(i as int) =~= items);
        }
        proof {
            assert(out@ =~= summary(self@));
        }
        out
    }

    /// The PlantUML description: one class block with a line per field (`type name`) and
    /// per method (`returnType name(arguments)`).
    pub fn to_plantuml(&self) -> (r: String)
        ensures
            r@ == markup(self@),
    {
        let mut out = String::from_str("@startuml\n");
        out.append("class ");
        out.append(self.class_signature.class_name.as_str());
        out.append(" {\n");
        let ghost items = self.members.deep_view();
        let ghost start = out@;
        let mut i: usize = 0;
        proof {
            assert(items.take(0) =~= Seq::<MemberView>::empty());
            assert(out@ =~= start + lines(items.take(0), member_markup_fn()));
        }
        while i < self.members.len()
            invariant
                items == self.members.deep_view(),
                i <= self.members.len(),
                out@ == start + lines(items.take(i as int), member_markup_fn()),
            decreases self.members.len() - i,
        {
            let line = member_markup_text(&self.members[i]);
            let ghost before = out@;
            out.append(line.as_str());
            proof {
                assert(items.take(i + 1).drop_last() =~= items.take(i as int));
                assert(items.take(i + 1).last() == items[i as int]);
                assert(out@ =~= start + lines(items.take(i + 1), member_markup_fn()));
            }
            i = i + 1;
        }
        proof {
            assert(items.take(i as int) =~= items);
        }
        let ghost items = self.methods.deep_view();
        let ghost start = out@;
        let mut i: usize = 0;
        proof {
            assert(items.take(0) =~= Seq::<MethodView>::empty());
            assert(out@ =~= start + lines(items.take(0), method_markup_fn()));
        }
        while i < self.methods.len()
            invariant
                items == self.methods.deep_view(),
                i <= self.methods.len(),
                out@ == start + lines(items.take(i as int), method_markup_fn()),
            decreases self.methods.len() - i,
        {
            let line = method_markup_text(&self.methods[i]);
            let ghost before = out@;
            out.append(line.as_str());
            proof {
                assert(items.take(i + 1).drop_last() =~= items.take(i as int));
                assert(items.take(i + 1).last() == items[i as int]);
                assert(out@ =~= start + lines(items.take(i + 1), method_markup_fn()));
            }
            i = i + 1;
        }
        proof {
            assert(items.take(i as int) =~= items);
        }
        out.append("}\n");
        out.append("@enduml\n");
        proof {
            assert(out@ =~= markup(self@));
        }
        out
    }
}

/// A class with no fields, constructors or methods has a summary of its signature lines
/// alone, and markup with an empty class block.
pub proof fn lemma_empty_class_rendering(c: ClassView)
    requires
        c.members.len() == 0,
        c.constructors.len() == 0,
        c.methods.len() == 0,
    ensures
        summary(c) == signature_lines(c.signature),
        markup(c) == "@startuml\n"@ + "class "@ + c.signature.name + " {\n"@ + "}\n"@
            + "@enduml\n"@,
{
    assert(summary(c) =~= signature_lines(c.signature));
    assert(markup(c) =~= "@startuml\n"@ + "class "@ + c.signature.name + " {\n"@ + "}\n"@
        + "@enduml\n"@);
}

/// Rendering depends on the model alone: equal models give byte-identical summaries and
/// markup, however often they are rendered.
pub proof fn lemma_rendering_depends_on_model_alone(a: ClassView, b: ClassView)
    requires
        a == b,
    ensures
        summary(a) == summary(b),
        markup(a) == markup(b),
{
}

} // verus!
