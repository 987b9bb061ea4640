//! Extraction of the class model from comment-free source text.
//!
//! Each extractor scans the text with one pattern and turns the capture groups of the
//! matches into model values. Policies: a constructor with a malformed parameter makes the
//! whole text fail; a method with one is dropped, as is a method whose return type token
//! reads `public` (the pattern misfiring on a constructor with a modifier). In an interface,
//! a method written without a modifier is public.
use vstd::prelude::*;
use crate::model::{
    AccessType, Argument, ArgumentView, Class, ClassSignature, ClassType, ClassView, Constructor,
    ConstructorView, Member, MemberView, Method, MethodView, ParserError, SignatureView,
    result_view,
};
use crate::scan::{regex_captures, scan};
use crate::text::{
    is_white, lemma_split_pieces_lack_separator, lemma_words_are_tokens, split_at_char, split_on,
    split_words, trim, trim_white, words,
};

verus! {

/// The header: `[access] (class|interface) Name [extends Super] [implements I1, I2, ...] {`.
pub const SIGNATURE_PATTERN: &'static str = r"\b(public|private|protected)?\s*\b(class|interface)\s+(\w+)\s*(?:extends\s+(\w+)\s*)?(?:implements\s+(\w+(?:\s*,\s*\w+)*)\s*)?\{";

/// A field: `access type name;`.
pub const MEMBER_PATTERN: &'static str = r"(public|protected|private)\s+(\w+)\s+(\w+)\s*;";

/// A constructor: `[access] CapitalizedName(parameters) [throws X] [{]` after `;`, a newline
/// or a brace.
pub const CONSTRUCTOR_PATTERN: &'static str = r"(;|\n|\{|\})\s*(public|private|protected)?\s*[A-Z]\w*\s*\((.*?)\)\s*(throws\s+[A-Za-z0-9]+\s*)?(\{)?";

/// A method: `[access] [static] returnType name(parameters)` after `;`, a newline or a brace;
/// the parameters end at the first closing parenthesis.
pub const METHOD_PATTERN: &'static str = r"(;|\n|\{|\})\s*(\s*(public|private|protected))?(\s*(static))?(\s*(\w+))(\s+(\w+))\(([^()]*)\)";

/// The groups of one match, group 0 first.
pub type Groups = Seq<Option<Seq<char>>>;

/// Group `i` of a match, `None` when it took no part or does not exist.
pub open spec fn group(g: Groups, i: int) -> Option<Seq<char>> {
    if 0 <= i < g.len() {
        g[i]
    } else {
        None
    }
}

/// The text of group `i`, empty when it is absent.
pub open spec fn group_text(g: Groups, i: int) -> Seq<char> {
    match group(g, i) {
        Some(t) => t,
        None => Seq::empty(),
    }
}

/// The access level that a modifier token names.
pub open spec fn access_named(t: Seq<char>) -> Option<AccessType> {
    if t == "public"@ {
        Some(AccessType::Public)
    } else if t == "private"@ {
        Some(AccessType::Private)
    } else if t == "protected"@ {
        Some(AccessType::Protected)
    } else {
        None
    }
}

/// The access level of an optional modifier token: `Default` when there is none.
pub open spec fn access_of(tok: Option<Seq<char>>) -> Result<AccessType, ParserError> {
    match tok {
        None => Ok(AccessType::Default),
        Some(t) => match access_named(t) {
            Some(a) => Ok(a),
            None => Err(ParserError::UnrecognizedAccessToken),
        },
    }
}

/// The parameter list `list`: empty, or comma-separated pieces of exactly two words each,
/// a type and a name; `None` when a piece is otherwise.
pub open spec fn arguments_of(list: Seq<char>) -> Option<Seq<ArgumentView>> {
    let pieces = split_on(list, ',');
    if list.len() == 0 {
        Some(Seq::empty())
    } else if forall|i: int| 0 <= i < pieces.len() ==> #[trigger] words(pieces[i]).len() == 2 {
        Some(pieces.map_values(|p: Seq<char>| ArgumentView { name: words(p)[1], ty: words(p)[0] }))
    } else {
        None
    }
}

/// The items of all matches in order, skipping those for which `f` gives `Ok(None)`;
/// the first error, if any.
pub open spec fn collect<T>(
    caps: Seq<Groups>,
    f: spec_fn(Groups) -> Result<Option<T>, ParserError>,
) -> Result<Seq<T>, ParserError>
    decreases caps.len(),
{
    if caps.len() == 0 {
        Ok(Seq::empty())
    } else {
        match collect(caps.drop_last(), f) {
            Err(e) => Err(e),
            Ok(items) => match f(caps.last()) {
                Err(e) => Err(e),
                Ok(None) => Ok(items),
                Ok(Some(x)) => Ok(items.push(x)),
            },
        }
    }
}

proof fn lemma_collect_err<T>(
    caps: Seq<Groups>,
    f: spec_fn(Groups) -> Result<Option<T>, ParserError>,
    k: int,
)
    requires
        0 <= k <= caps.len(),
        collect(caps.take(k), f) is Err,
    ensures
        collect(caps, f) == collect(caps.take(k), f),
    decreases caps.len() - k,
{
    if k == caps.len() {
        assert(caps.take(k) =~= caps);
    } else {
        assert(caps.take(k + 1).drop_last() =~= caps.take(k));
        lemma_collect_err(caps, f, k + 1);
    }
}

/// The signature of the first header match.
pub open spec fn signature_item(g: Groups) -> Result<SignatureView, ParserError> {
    match access_of(group(g, 1)) {
        Err(e) => Err(e),
        Ok(access) => {
            let kind = group_text(g, 2);
            if kind != "class"@ && kind != "interface"@ {
                Err(ParserError::NoSignatureFound)
            } else {
                Ok(
                    SignatureView {
                        access,
                        kind: if kind == "class"@ {
                            ClassType::Class
                        } else {
                            ClassType::Interface
                        },
                        name: group_text(g, 3),
                        superclass: group(g, 4),
                        interfaces: match group(g, 5) {
                            None => Seq::empty(),
                            Some(list) => split_on(list, ',').map_values(|p: Seq<char>| trim(p)),
                        },
                    },
                )
            }
        },
    }
}

/// The signature that the header matches give: from the first one, if any.
pub open spec fn signature_from(caps: Seq<Groups>) -> Result<SignatureView, ParserError> {
    if caps.len() == 0 {
        Err(ParserError::NoSignatureFound)
    } else {
        signature_item(caps[0])
    }
}

/// The field of one member match; its access token is mandatory.
pub open spec fn member_item(g: Groups) -> Result<Option<MemberView>, ParserError> {
    match group(g, 1) {
        None => Err(ParserError::UnrecognizedAccessToken),
        Some(t) => match access_named(t) {
            None => Err(ParserError::UnrecognizedAccessToken),
            Some(access) => Ok(Some(MemberView { access, name: group_text(g, 3), ty: group_text(g, 2) })),
        },
    }
}

pub open spec fn member_fn() -> spec_fn(Groups) -> Result<Option<MemberView>, ParserError> {
    |g: Groups| member_item(g)
}

/// The constructor of one constructor match; a malformed parameter is an error.
pub open spec fn constructor_item(g: Groups) -> Result<Option<ConstructorView>, ParserError> {
    match access_of(group(g, 2)) {
        Err(e) => Err(e),
        Ok(access) => match arguments_of(group_text(g, 3)) {
            None => Err(ParserError::MalformedParameter),
            Some(arguments) => Ok(Some(ConstructorView { access, arguments })),
        },
    }
}

pub open spec fn constructor_fn() -> spec_fn(Groups) -> Result<Option<ConstructorView>, ParserError> {
    |g: Groups| constructor_item(g)
}

/// The access of a method: in an interface, a method without a modifier is public, as the
/// language makes every interface method; elsewhere it has `Default` access.
pub open spec fn method_access(a: AccessType, in_interface: bool) -> AccessType {
    if in_interface && a == AccessType::Default {
        AccessType::Public
    } else {
        a
    }
}

/// The method of one method match, in an interface or not; `Ok(None)` when a parameter is
/// malformed or the return type token is `public`.
pub open spec fn method_item(g: Groups, in_interface: bool) -> Result<Option<MethodView>, ParserError> {
    match access_of(group(g, 3)) {
        Err(e) => Err(e),
        Ok(written) => {
            let access = method_access(written, in_interface);
            let ret = group_text(g, 7);
            match arguments_of(group_text(g, 10)) {
                None => Ok(None),
                Some(arguments) => if ret == "public"@ {
                    Ok(None)
                } else {
                    Ok(
                        Some(
                            MethodView {
                                access,
                                is_static: group(g, 5) is Some,
                                return_type: if ret == "void"@ {
                                    None
                                } else {
                                    Some(ret)
                                },
                                name: group_text(g, 9),
                                arguments,
                            },
                        ),
                    )
                },
            }
        },
    }
}

pub open spec fn method_fn(in_interface: bool) -> spec_fn(Groups) -> Result<Option<MethodView>, ParserError> {
    |g: Groups| method_item(g, in_interface)
}

/// Group `i` of `g`.
fn group_at(g: &Vec<Option<String>>, i: usize) -> (r: Option<String>)
    ensures
        r.deep_view() == group(g.deep_view(), i as int),
{
    if i < g.len() {
        match &g[i] {
            Some(t) => Some(t.clone()),
            None => None,
        }
    } else {
        None
    }
}

/// The text of group `i` of `g`, empty when absent.
fn group_string(g: &Vec<Option<String>>, i: usize) -> (r: String)
    ensures
        r@ == group_text(g.deep_view(), i as int),
{
    match group_at(g, i) {
        Some(t) => t,
        None => String::new(),
    }
}

/// Whether `t` reads `word`.
fn reads(t: &String, word: &str) -> (r: bool)
    ensures
        r == (t@ == word@),
{
    let w = String::from_str(word);
    *t == w
}

/// The access level that the modifier `t` names.
pub fn access_from_token(t: &String) -> (r: Option<AccessType>)
    ensures
        r == access_named(t@),
{
    if reads(t, "public") {
        Some(AccessType::Public)
    } else if reads(t, "private") {
        Some(AccessType::Private)
    } else if reads(t, "protected") {
        Some(AccessType::Protected)
    } else {
        None
    }
}

/// The access level of an optional modifier: `Default` when absent.
fn access_from_group(tok: &Option<String>) -> (r: Result<AccessType, ParserError>)
    ensures
        r == access_of(tok.deep_view()),
{
    match tok {
        None => Ok(AccessType::Default),
        Some(t) => match access_from_token(t) {
            Some(a) => Ok(a),
            None => Err(ParserError::UnrecognizedAccessToken),
        },
    }
}

/// Parses a parameter list into type and name pairs; `None` when a comma-separated piece
/// is not exactly two words.
pub fn parse_arguments(list: &str) -> (r: Option<Vec<Argument>>)
    ensures
        r.deep_view() == arguments_of(list@),
{
    let n = list.unicode_len();
    if n == 0 {
        let none: Vec<Argument> = Vec::new();
        proof {
            assert(none.deep_view() =~= Seq::<ArgumentView>::empty());
        }
        return Some(none);
    }
    let pieces = split_at_char(list, ',');
    let ghost ps = split_on(list@, ',');
    let mut out: Vec<Argument> = Vec::new();
    let mut i: usize = 0;
    while i < pieces.len()
        invariant
            pieces.deep_view() == ps,
            ps == split_on(list@, ','),
            list@.len() > 0,
            i <= pieces.len(),
            forall|j: int| 0 <= j < i ==> #[trigger] words(ps[j]).len() == 2,
            out.deep_view() =~= ps.take(i as int).map_values(
                |p: Seq<char>| ArgumentView { name: words(p)[1], ty: words(p)[0] },
            ),
        decreases pieces.len() - i,
    {
        let ws = split_words(pieces[i].as_str());
        assert(pieces[i as int]@ == ps[i as int]);
        if ws.len() != 2 {
            assert(ws.deep_view().len() == ws.len());
            assert(words(ps[i as int]).len() != 2);
            return None;
        }
        assert(ws[0]@ == ws.deep_view()[0]);
        assert(ws[1]@ == ws.deep_view()[1]);
        let arg = Argument { argument_name: ws[1].clone(), argument_type: ws[0].clone() };
        let ghost before = out.deep_view();
        out.push(arg);
        proof {
            assert(out.deep_view() =~= before.push(arg@));
            assert(ps.take(i + 1) =~= ps.take(i as int).push(ps[i as int]));
        }
        i = i + 1;
    }
    proof {
        assert(ps.take(i as int) =~= ps);
    }
    Some(out)
}

impl ClassSignature {
    /// The signature that the header matches `caps` give: from the first one, if any.
    pub fn from_matches(caps: &Vec<Vec<Option<String>>>) -> (r: Result<ClassSignature, ParserError>)
        ensures
            result_view(r) == signature_from(caps.deep_view()),
    {
        if caps.len() == 0 {
            return Err(ParserError::NoSignatureFound);
        }
        let g = &caps[0];
        assert(g.deep_view() == caps.deep_view()[0]);
        let access_type = match access_from_group(&group_at(g, 1)) {
            Ok(a) => a,
            Err(e) => return Err(e),
        };
        let kind = group_string(g, 2);
        let class_type = if reads(&kind, "class") {
            ClassType::Class
        } else if reads(&kind, "interface") {
            ClassType::Interface
        } else {
            return Err(ParserError::NoSignatureFound);
        };
        let class_name = group_string(g, 3);
        let superclass_name = group_at(g, 4);
        let implemented_interfaces = match group_at(g, 5) {
            None => {
                let v: Vec<String> = Vec::new();
                proof {
                    assert(v.deep_view() =~= Seq::<Seq<char>>::empty());
                }
                v
            },
            Some(list) => {
                let pieces = split_at_char(list.as_str(), ',');
                let mut v: Vec<String> = Vec::new();
                let mut i: usize = 0;
                while i < pieces.len()
                    invariant
                        i <= pieces.len(),
                        v.deep_view() =~= pieces.deep_view().take(i as int).map_values(
                            |p: Seq<char>| trim(p),
                        ),
                    decreases pieces.len() - i,
                {
                    let t = trim_white(pieces[i].as_str());
                    let ghost before = v.deep_view();
                    v.push(t);
                    proof {
                        assert(v.deep_view() =~= before.push(t@));
                        assert(pieces.deep_view().take(i + 1) =~= pieces.deep_view().take(
                            i as int,
                        ).push(pieces.deep_view()[i as int]));
                    }
                    i = i + 1;
                }
                proof {
                    assert(pieces.deep_view().take(i as int) =~= pieces.deep_view());
                }
                v
            },
        };
        Ok(ClassSignature { access_type, class_type, class_name, superclass_name, implemented_interfaces })
    }
}

impl Member {
    fn from_groups(g: &Vec<Option<String>>) -> (r: Result<Option<Member>, ParserError>)
        ensures
            result_view(r) == member_item(g.deep_view()),
    {
        let access_type = match group_at(g, 1) {
            None => return Err(ParserError::UnrecognizedAccessToken),
            Some(t) => match access_from_token(&t) {
                None => return Err(ParserError::UnrecognizedAccessToken),
                Some(a) => a,
            },
        };
        let member_type = group_string(g, 2);
        let member_name = group_string(g, 3);
        Ok(Some(Member { access_type, member_name, member_type }))
    }

    /// The fields of the member matches `caps`, in order; an error when a match carries no
    /// recognized access token.
    pub fn vec_from_matches(caps: &Vec<Vec<Option<String>>>) -> (r: Result<Vec<Member>, ParserError>)
        ensures
            result_view(r) == collect(caps.deep_view(), member_fn()),
    {
        let ghost cs = caps.deep_view();
        let mut out: Vec<Member> = Vec::new();
        let mut i: usize = 0;
        proof {
            assert(cs.take(0) =~= Seq::<Groups>::empty());
            assert(out.deep_view() =~= Seq::<MemberView>::empty());
        }
        while i < caps.len()
            invariant
                cs == caps.deep_view(),
                i <= caps.len(),
                collect(cs.take(i as int), member_fn()) == Ok::<Seq<MemberView>, ParserError>(
                    out.deep_view(),
                ),
            decreases caps.len() - i,
        {
            proof {
                assert(cs.take(i + 1).drop_last() =~= cs.take(i as int));
                assert(cs.take(i + 1).last() == cs[i as int]);
            }
            let ghost before = out.deep_view();
            match Member::from_groups(&caps[i]) {
                Err(e) => {
                    proof {
                        lemma_collect_err(cs, member_fn(), i + 1);
                    }
                    return Err(e);
                },
                Ok(None) => {},
                Ok(Some(m)) => {
                    out.push(m);
                    proof {
                        assert(out.deep_view() =~= before.push(m@));
                    }
                },
            }
            i = i + 1;
        }
        proof {
            assert(cs.take(i as int) =~= cs);
        }
        Ok(out)
    }

    /// The fields declared in `class_source`.
    pub fn vec_from_class_source(class_source: &str) -> (r: Result<Vec<Member>, ParserError>)
        ensures
            result_view(r) == members_of(class_source@),
    {
        match scan(MEMBER_PATTERN, class_source) {
            None => Err(ParserError::PatternRejected),
            Some(caps) => Member::vec_from_matches(&caps),
        }
    }
}

impl Constructor {
    fn from_groups(g: &Vec<Option<String>>) -> (r: Result<Option<Constructor>, ParserError>)
        ensures
            result_view(r) == constructor_item(g.deep_view()),
    {
        let access_type = match access_from_group(&group_at(g, 2)) {
            Ok(a) => a,
            Err(e) => return Err(e),
        };
        let list = group_string(g, 3);
        match parse_arguments(list.as_str()) {
            None => Err(ParserError::MalformedParameter),
            Some(arguments) => Ok(Some(Constructor { access_type, arguments })),
        }
    }

    /// The constructors of the constructor matches `caps`, in order; the first error, where
    /// a match has an unrecognized access token or a malformed parameter.
    pub fn vec_from_matches(caps: &Vec<Vec<Option<String>>>) -> (r: Result<Vec<Constructor>, ParserError>)
        ensures
            result_view(r) == collect(caps.deep_view(), constructor_fn()),
    {
        let ghost cs = caps.deep_view();
        let mut out: Vec<Constructor> = Vec::new();
        let mut i: usize = 0;
        proof {
            assert(cs.take(0) =~= Seq::<Groups>::empty());
            assert(out.deep_view() =~= Seq::<ConstructorView>::empty());
        }
        while i < caps.len()
            invariant
                cs == caps.deep_view(),
                i <= caps.len(),
                collect(cs.take(i as int), constructor_fn()) == Ok::<
                    Seq<ConstructorView>,
                    ParserError,
                >(out.deep_view()),
            decreases caps.len() - i,
        {
            proof {
                assert(cs.take(i + 1).drop_last() =~= cs.take(i as int));
                assert(cs.take(i + 1).last() == cs[i as int]);
            }
            let ghost before = out.deep_view();
            match Constructor::from_groups(&caps[i]) {
                Err(e) => {
                    proof {
                        lemma_collect_err(cs, constructor_fn(), i + 1);
                    }
                    return Err(e);
                },
                Ok(None) => {},
                Ok(Some(c)) => {
                    out.push(c);
                    proof {
                        assert(out.deep_view() =~= before.push(c@));
                    }
                },
            }
            i = i + 1;
        }
        proof {
            assert(cs.take(i as int) =~= cs);
        }
        Ok(out)
    }

    /// The constructors declared in `class_source`.
    pub fn vec_from_class_source(class_source: &str) -> (r: Result<Vec<Constructor>, ParserError>)
        ensures
            result_view(r) == constructors_of(class_source@),
    {
        match scan(CONSTRUCTOR_PATTERN, class_source) {
            None => Err(ParserError::PatternRejected),
            Some(caps) => Constructor::vec_from_matches(&caps),
        }
    }
}

impl Method {
    fn from_groups(g: &Vec<Option<String>>, in_interface: bool) -> (r: Result<Option<Method>, ParserError>)
        ensures
            result_view(r) == method_item(g.deep_view(), in_interface),
    {
        let written = match access_from_group(&group_at(g, 3)) {
            Ok(a) => a,
            Err(e) => return Err(e),
        };
        let access_type = if in_interface && written == AccessType::Default {
            AccessType::Public
        } else {
            written
        };
        let ret = group_string(g, 7);
        let list = group_string(g, 10);
        let arguments = match parse_arguments(list.as_str()) {
            None => return Ok(None),
            Some(args) => args,
        };
        if reads(&ret, "public") {
            return Ok(None);
        }
        let is_static = group_at(g, 5).is_some();
        let return_type = if reads(&ret, "void") {
            None
        } else {
            Some(ret)
        };
        let method_name = group_string(g, 9);
        Ok(Some(Method { access_type, is_static, return_type, method_name, arguments }))
    }

    /// The methods of the method matches `caps`, in order, without those that have a
    /// malformed parameter or the return type token `public`; an error where a match has an
    /// unrecognized access token. In an interface, a method without a modifier is public.
    pub fn vec_from_matches(caps: &Vec<Vec<Option<String>>>, in_interface: bool) -> (r: Result<Vec<Method>, ParserError>)
        ensures
            result_view(r) == collect(caps.deep_view(), method_fn(in_interface)),
    {
        let ghost cs = caps.deep_view();
        let mut out: Vec<Method> = Vec::new();
        let mut i: usize = 0;
        proof {
            assert(cs.take(0) =~= Seq::<Groups>::empty());
            assert(out.deep_view() =~= Seq::<MethodView>::empty());
        }
        while i < caps.len()
            invariant
                cs == caps.deep_view(),
                i <= caps.len(),
                collect(cs.take(i as int), method_fn(in_interface)) == Ok::<Seq<MethodView>, ParserError>(
                    out.deep_view(),
                ),
            decreases caps.len() - i,
        {
            proof {
                assert(cs.take(i + 1).drop_last() =~= cs.take(i as int));
                assert(cs.take(i + 1).last() == cs[i as int]);
            }
            let ghost before = out.deep_view();
            match Method::from_groups(&caps[i], in_interface) {
                Err(e) => {
                    proof {
                        lemma_collect_err(cs, method_fn(in_interface), i + 1);
                    }
                    return Err(e);
                },
                Ok(None) => {},
                Ok(Some(m)) => {
                    out.push(m);
                    proof {
                        assert(out.deep_view() =~= before.push(m@));
                    }
                },
            }
            i = i + 1;
        }
        proof {
            assert(cs.take(i as int) =~= cs);
        }
        Ok(out)
    }

    /// The methods declared in `class_source`, the body of an interface or not.
    pub fn vec_from_class_source(class_source: &str, in_interface: bool) -> (r: Result<Vec<Method>, ParserError>)
        ensures
            result_view(r) == methods_of(class_source@, in_interface),
    {
        match scan(METHOD_PATTERN, class_source) {
            None => Err(ParserError::PatternRejected),
            Some(caps) => Method::vec_from_matches(&caps, in_interface),
        }
    }
}

impl ClassSignature {
    /// The signature of the first header in `class_source`.
    pub fn from_source(class_source: &str) -> (r: Result<ClassSignature, ParserError>)
        ensures
            result_view(r) == signature_of(class_source@),
    {
        match scan(SIGNATURE_PATTERN, class_source) {
            None => Err(ParserError::PatternRejected),
            Some(caps) => ClassSignature::from_matches(&caps),
        }
    }
}

/// Applies `f` to the matches of `pattern` in `text`.
pub open spec fn over_matches<T>(
    pattern: Seq<char>,
    text: Seq<char>,
    f: spec_fn(Seq<Groups>) -> Result<T, ParserError>,
) -> Result<T, ParserError> {
    match regex_captures(pattern, text) {
        None => Err(ParserError::PatternRejected),
        Some(caps) => f(caps),
    }
}

/// The signature of the first header in `text`.
pub open spec fn signature_of(text: Seq<char>) -> Result<SignatureView, ParserError> {
    over_matches(SIGNATURE_PATTERN@, text, |caps: Seq<Groups>| signature_from(caps))
}

/// The fields declared in `text`.
pub open spec fn members_of(text: Seq<char>) -> Result<Seq<MemberView>, ParserError> {
    over_matches(MEMBER_PATTERN@, text, |caps: Seq<Groups>| collect(caps, member_fn()))
}

/// The constructors declared in `text`.
pub open spec fn constructors_of(text: Seq<char>) -> Result<Seq<ConstructorView>, ParserError> {
    over_matches(CONSTRUCTOR_PATTERN@, text, |caps: Seq<Groups>| collect(caps, constructor_fn()))
}

/// The methods declared in `text`, the body of an interface or not.
pub open spec fn methods_of(text: Seq<char>, in_interface: bool) -> Result<Seq<MethodView>, ParserError> {
    over_matches(METHOD_PATTERN@, text, |caps: Seq<Groups>| collect(caps, method_fn(in_interface)))
}

/// The model of `text`: its signature, constructors, methods and fields; the first error in
/// that order.
pub open spec fn class_of(text: Seq<char>) -> Result<ClassView, ParserError> {
    match signature_of(text) {
        Err(e) => Err(e),
        Ok(signature) => match constructors_of(text) {
            Err(e) => Err(e),
            Ok(constructors) => match methods_of(text, signature.kind == ClassType::Interface) {
                Err(e) => Err(e),
                Ok(methods) => match members_of(text) {
                    Err(e) => Err(e),
                    Ok(members) => Ok(ClassView { signature, constructors, methods, members }),
                },
            },
        },
    }
}

impl Class {
    /// The model of the comment-free `class_source`.
    pub fn from_source(class_source: &str) -> (r: Result<Class, ParserError>)
        ensures
            result_view(r) == class_of(class_source@),
    {
        let class_signature = match ClassSignature::from_source(class_source) {
            Ok(s) => s,
            Err(e) => return Err(e),
        };
        let constructors = match Constructor::vec_from_class_source(class_source) {
            Ok(c) => c,
            Err(e) => return Err(e),
        };
        let in_interface = class_signature.class_type == ClassType::Interface;
        let methods = match Method::vec_from_class_source(class_source, in_interface) {
            Ok(m) => m,
            Err(e) => return Err(e),
        };
        let members = match Member::vec_from_class_source(class_source) {
            Ok(m) => m,
            Err(e) => return Err(e),
        };
        Ok(Class { class_signature, constructors, methods, members })
    }
}

proof fn lemma_collect_skip<T>(
    caps: Seq<Groups>,
    f: spec_fn(Groups) -> Result<Option<T>, ParserError>,
    k: int,
)
    requires
        0 <= k < caps.len(),
        f(caps[k]) == Ok::<Option<T>, ParserError>(None),
    ensures
        collect(caps, f) == collect(caps.remove(k), f),
    decreases caps.len(),
{
    if k == caps.len() - 1 {
        assert(caps.remove(k) =~= caps.drop_last());
    } else {
        let rest = caps.remove(k);
        assert(rest.drop_last() =~= caps.drop_last().remove(k));
        assert(rest.last() == caps.last());
        lemma_collect_skip(caps.drop_last(), f, k);
    }
}

/// A constructor match whose parameter list has a piece that is not exactly a type and a
/// name makes constructor extraction fail.
pub proof fn lemma_malformed_constructor_fails(caps: Seq<Groups>, k: int)
    requires
        0 <= k < caps.len(),
        arguments_of(group_text(caps[k], 3)) is None,
    ensures
        collect(caps, constructor_fn()) is Err,
{
    let f = constructor_fn();
    assert(caps.take(k + 1).drop_last() =~= caps.take(k));
    assert(caps.take(k + 1).last() == caps[k]);
    assert(collect(caps.take(k + 1), f) is Err);
    lemma_collect_err(caps, f, k + 1);
}

/// A method match with a recognized access and a malformed parameter is dropped: the
/// methods are those of the other matches.
pub proof fn lemma_malformed_method_dropped(caps: Seq<Groups>, in_interface: bool, k: int)
    requires
        0 <= k < caps.len(),
        access_of(group(caps[k], 3)) is Ok,
        arguments_of(group_text(caps[k], 10)) is None,
    ensures
        collect(caps, method_fn(in_interface)) == collect(caps.remove(k), method_fn(in_interface)),
{
    lemma_collect_skip(caps, method_fn(in_interface), k);
}

/// A method match with a recognized access whose return type token reads `public` is
/// dropped: the methods are those of the other matches.
pub proof fn lemma_public_return_type_dropped(caps: Seq<Groups>, in_interface: bool, k: int)
    requires
        0 <= k < caps.len(),
        access_of(group(caps[k], 3)) is Ok,
        group_text(caps[k], 7) == "public"@,
    ensures
        collect(caps, method_fn(in_interface)) == collect(caps.remove(k), method_fn(in_interface)),
{
    lemma_collect_skip(caps, method_fn(in_interface), k);
}

/// No extracted method has the return type `public`.
pub proof fn lemma_no_method_returns_public(caps: Seq<Groups>, in_interface: bool)
    ensures
        collect(caps, method_fn(in_interface)) matches Ok(ms) ==> forall|i: int|
            0 <= i < ms.len() ==> (#[trigger] ms[i]).return_type != Some("public"@),
    decreases caps.len(),
{
    if caps.len() > 0 {
        lemma_no_method_returns_public(caps.drop_last(), in_interface);
    }
}

/// No method extracted from a text has the return type `public`.
pub proof fn lemma_no_method_of_text_returns_public(text: Seq<char>, in_interface: bool)
    ensures
        methods_of(text, in_interface) matches Ok(ms) ==> forall|i: int|
            0 <= i < ms.len() ==> (#[trigger] ms[i]).return_type != Some("public"@),
{
    if let Some(caps) = regex_captures(METHOD_PATTERN@, text) {
        lemma_no_method_returns_public(caps, in_interface);
    }
}

/// A token of a parameter: non-empty, without whitespace or a comma.
pub open spec fn is_token(t: Seq<char>) -> bool {
    t.len() > 0 && forall|k: int| 0 <= k < t.len() ==> !is_white(#[trigger] t[k]) && t[k] != ','
}

/// Every parameter that a parameter list yields is exactly two tokens, a type and a name.
pub proof fn lemma_arguments_are_tokens(list: Seq<char>)
    ensures
        arguments_of(list) matches Some(args) ==> forall|i: int|
            0 <= i < args.len() ==> is_token((#[trigger] args[i]).ty) && is_token(args[i].name),
{
    let pieces = split_on(list, ',');
    lemma_split_pieces_lack_separator(list, ',');
    if list.len() > 0 && arguments_of(list) is Some {
        let args = arguments_of(list)->0;
        assert forall|i: int| 0 <= i < args.len() implies is_token((#[trigger] args[i]).ty)
            && is_token(args[i].name) by {
            let p = pieces[i];
            assert forall|j: int| 0 <= j < p.len() implies p[j] != ',' by {
                assert(split_on(list, ',')[i][j] != ',');
            }
            lemma_words_are_tokens(p, ',');
            assert(words(p).len() == 2);
            assert(args[i].ty == words(p)[0]);
            assert(args[i].name == words(p)[1]);
        }
    }
}

proof fn lemma_collect_ok<T>(
    caps: Seq<Groups>,
    f: spec_fn(Groups) -> Result<Option<T>, ParserError>,
)
    requires
        forall|j: int| 0 <= j < caps.len() ==> (#[trigger] f(caps[j])) is Ok,
    ensures
        collect(caps, f) is Ok,
    decreases caps.len(),
{
    if caps.len() > 0 {
        assert(f(caps.last()) is Ok);
        lemma_collect_ok(caps.drop_last(), f);
    }
}

/// When the constructor matches before the `k`-th are well-formed and the `k`-th has a
/// recognized access and a malformed parameter, constructor extraction fails with
/// `MalformedParameter`.
pub proof fn lemma_malformed_constructor_error(caps: Seq<Groups>, k: int)
    requires
        0 <= k < caps.len(),
        forall|j: int| 0 <= j < k ==> (#[trigger] constructor_item(caps[j])) is Ok,
        access_of(group(caps[k], 2)) is Ok,
        arguments_of(group_text(caps[k], 3)) is None,
    ensures
        collect(caps, constructor_fn()) == Err::<Seq<ConstructorView>, ParserError>(
            ParserError::MalformedParameter,
        ),
{
    let f = constructor_fn();
    let pre = caps.take(k);
    assert forall|j: int| 0 <= j < pre.len() implies (#[trigger] f(pre[j])) is Ok by {
        assert(pre[j] == caps[j]);
        assert(constructor_item(caps[j]) is Ok);
    }
    lemma_collect_ok(pre, f);
    assert(caps.take(k + 1).drop_last() =~= pre);
    assert(caps.take(k + 1).last() == caps[k]);
    lemma_collect_err(caps, f, k + 1);
}

} // verus!
