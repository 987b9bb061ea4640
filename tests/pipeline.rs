use umlbot::extract::parse_arguments;
use umlbot::model::{AccessType, Class, ClassType, Member, Method, ParserError};
use umlbot::comments::remove_comments;
use umlbot::pipeline::{analyse_source, analyse_sources, exporting_message, render_source, renderer_program};

const FOO: &str = "public class Foo {\n    public int x;\n    public Foo(int x) {}\n    public int getX() { return x; }\n}\n";
const BAR: &str = "interface Bar {\n    void doIt();\n}\n";
const FOO_ONE_LINE: &str = "public class Foo { public int x; public Foo(int x) {} public int getX() { return x; } }";
const BAR_ONE_LINE: &str = "interface Bar { void doIt(); }";

fn groups(items: &[Option<&str>]) -> Vec<Option<String>> {
    items.iter().map(|g| g.map(|s| s.to_string())).collect()
}

#[test]
fn minimal_class_summary() {
    let class = analyse_source(FOO).unwrap();
    assert_eq!(class.to_str(), "public\nFoo\n+ x: int\n+ Foo(x: int)\n+ getX(): int\n");
}

#[test]
fn minimal_class_markup() {
    let class = analyse_source(FOO).unwrap();
    assert_eq!(class.to_plantuml(), "@startuml\nclass Foo {\nint x\nint getX()\n}\n@enduml\n");
}

#[test]
fn interface_marker_before_name() {
    let class = analyse_source(BAR).unwrap();
    assert_eq!(class.class_signature.class_type, ClassType::Interface);
    let summary = class.to_str();
    assert_eq!(summary, "\n<<interface>>\nBar\n+ doIt(): void\n");
    let lines: Vec<&str> = summary.lines().collect();
    let marker = lines.iter().position(|l| *l == "<<interface>>").unwrap();
    let name = lines.iter().position(|l| *l == "Bar").unwrap();
    assert!(marker < name);
    assert!(!summary.contains("[static]"));
}

#[test]
fn static_method_with_array_parameter() {
    let source = "public class Runner {\n    static void run(String[] s) {}\n}\n";
    let class = analyse_source(source).unwrap();
    assert_eq!(class.methods.len(), 1);
    assert!(class.methods[0].is_static);
    assert_eq!(class.methods[0].arguments[0].argument_type, "String[]");
    assert_eq!(class.methods[0].arguments[0].argument_name, "s");
    assert_eq!(class.to_str(), "public\nRunner\n  run(s: String[]): void [static]\n");
}

#[test]
fn method_with_spaced_parameter_type_is_dropped() {
    let source = "public class Store {\n    void put(Map<String, Integer> m) {}\n    void clear() {}\n}\n";
    let class = analyse_source(source).unwrap();
    assert_eq!(class.methods.len(), 1);
    assert_eq!(class.methods[0].method_name, "clear");
}

#[test]
fn constructor_with_spaced_parameter_type_fails() {
    let source = "public class Box {\n    public Box(Map<String, Integer> m) {}\n}\n";
    assert_eq!(analyse_source(source).unwrap_err(), ParserError::MalformedParameter);
}

#[test]
fn public_return_type_is_filtered() {
    let class = analyse_source(FOO).unwrap();
    assert_eq!(class.methods.len(), 1);
    assert_eq!(class.methods[0].method_name, "getX");
    let caps = vec![groups(&[
        Some(";\n public Foo(int x)"), Some(";"), None, None, None, None, Some("public"),
        Some("public"), Some(" Foo"), Some("Foo"), Some("int x"),
    ])];
    assert_eq!(Method::vec_from_matches(&caps, false).unwrap().len(), 0);
}

#[test]
fn method_from_matches_fields() {
    let caps = vec![groups(&[
        Some("\n  protected static long sum(int a, long b)"), Some("\n"), Some(" protected"),
        Some("protected"), Some(" static"), Some("static"), Some(" long"), Some("long"),
        Some(" sum"), Some("sum"), Some("int a, long b"),
    ])];
    let methods = Method::vec_from_matches(&caps, false).unwrap();
    assert_eq!(methods.len(), 1);
    let m = &methods[0];
    assert_eq!(m.access_type, AccessType::Protected);
    assert!(m.is_static);
    assert_eq!(m.return_type.as_deref(), Some("long"));
    assert_eq!(m.method_name, "sum");
    assert_eq!(m.arguments.len(), 2);
    assert_eq!(m.arguments[1].argument_name, "b");
    assert_eq!(m.arguments[1].argument_type, "long");
}

#[test]
fn comment_stripping_is_idempotent() {
    let source = "int a; // note\n/* block\n comment */int b;\n";
    let once = remove_comments(source);
    assert_eq!(once, "int a; \nint b;\n");
    let twice = remove_comments(&once);
    assert_eq!(once, twice);
}

#[test]
fn comments_do_not_hide_declarations() {
    let source = "// header\npublic class Doc { /* none */\n    private int n; // count\n}\n";
    let class = analyse_source(source).unwrap();
    assert_eq!(class.to_str(), "public\nDoc\n- n: int\n");
}

#[test]
fn rendering_twice_is_identical() {
    let first = render_source(FOO).unwrap();
    let second = render_source(FOO).unwrap();
    assert_eq!(first, second);
}

#[test]
fn empty_class_renders_signature_only() {
    let (summary, markup) = render_source("public class Empty {\n}\n").unwrap();
    assert_eq!(summary, "public\nEmpty\n");
    assert_eq!(markup, "@startuml\nclass Empty {\n}\n@enduml\n");
}

#[test]
fn batch_reports_only_the_failing_unit() {
    let sources = vec![FOO.to_string(), "just some text;\n".to_string(), BAR.to_string()];
    let results = analyse_sources(&sources);
    assert_eq!(results.len(), 3);
    assert_eq!(results.iter().filter(|r| r.is_err()).count(), 1);
    assert_eq!(*results[1].as_ref().unwrap_err(), ParserError::NoSignatureFound);
    let first: &Class = results[0].as_ref().unwrap();
    assert_eq!(first.class_signature.class_name, "Foo");
    assert_eq!(results[2].as_ref().unwrap().class_signature.class_name, "Bar");
}

#[test]
fn no_header_is_no_signature_found() {
    assert_eq!(analyse_source("").unwrap_err(), ParserError::NoSignatureFound);
}

#[test]
fn superclass_and_interfaces() {
    let source = "public class Dog extends Animal implements Pet, Runner {\n}\n";
    let class = analyse_source(source).unwrap();
    assert_eq!(class.class_signature.superclass_name.as_deref(), Some("Animal"));
    assert_eq!(class.class_signature.implemented_interfaces, vec!["Pet".to_string(), "Runner".to_string()]);
    assert_eq!(class.to_str(), "public\nDog\nextends Animal\nimplements Pet\nimplements Runner\n");
}

#[test]
fn protected_member_and_default_class() {
    let class = analyse_source("class P {\n    protected int count;\n}\n").unwrap();
    assert_eq!(class.class_signature.access_type, AccessType::Default);
    assert_eq!(class.to_str(), "\nP\n# count: int\n");
}

#[test]
fn private_static_method_with_arguments() {
    let source = "class Calc {\n    private static int add(int a, int b) { return a + b; }\n}\n";
    let (summary, markup) = render_source(source).unwrap();
    assert_eq!(summary, "\nCalc\n- add(a: int, b: int): int [static]\n");
    assert_eq!(markup, "@startuml\nclass Calc {\nint add(a: int, b: int)\n}\n@enduml\n");
}

#[test]
fn private_constructor_summary() {
    let source = "public class Point {\n    private Point(int x, int y) {}\n}\n";
    let class = analyse_source(source).unwrap();
    assert_eq!(class.constructors.len(), 1);
    // only the token `public` is filtered as a return type, so the method scanner's
    // reading of a private constructor stays in the method list
    assert_eq!(class.to_str(), "public\nPoint\n- Point(x: int, y: int)\n  Point(x: int, y: int): private\n");
}

#[test]
fn member_without_access_token_is_unrecognized() {
    let caps = vec![groups(&[Some("package int x;"), Some("package"), Some("int"), Some("x")])];
    assert_eq!(Member::vec_from_matches(&caps).unwrap_err(), ParserError::UnrecognizedAccessToken);
}

#[test]
fn member_from_matches_keeps_order() {
    let caps = vec![
        groups(&[Some("private int a;"), Some("private"), Some("int"), Some("a")]),
        groups(&[Some("public String b;"), Some("public"), Some("String"), Some("b")]),
    ];
    let members = Member::vec_from_matches(&caps).unwrap();
    assert_eq!(members.len(), 2);
    assert_eq!(members[0].member_name, "a");
    assert_eq!(members[0].access_type, AccessType::Private);
    assert_eq!(members[1].member_type, "String");
}

#[test]
fn parameter_lists() {
    assert_eq!(parse_arguments("").unwrap().len(), 0);
    let args = parse_arguments(" int  a ,\tString b ").unwrap();
    assert_eq!(args.len(), 2);
    assert_eq!(args[0].argument_type, "int");
    assert_eq!(args[0].argument_name, "a");
    assert_eq!(args[1].argument_type, "String");
    assert_eq!(args[1].argument_name, "b");
    assert!(parse_arguments("int").is_none());
    assert!(parse_arguments("int a,").is_none());
    assert!(parse_arguments("final int a").is_none());
}

#[test]
fn unclosed_block_comment_stays() {
    assert_eq!(remove_comments("int a; /* open\nint b;"), "int a; /* open\nint b;");
    assert_eq!(remove_comments("/* open // tail\nx"), "/* open \nx");
}

#[test]
fn block_comment_closes_at_first_end() {
    assert_eq!(remove_comments("a /* x */ b /* y */ c"), "a  b  c");
    assert_eq!(remove_comments("/**/x"), "x");
    assert_eq!(remove_comments("/*/ still */y"), "y");
}

#[test]
fn line_comment_keeps_newline() {
    assert_eq!(remove_comments("x; // one\n// two\ny;"), "x; \n\ny;");
    assert_eq!(remove_comments("// only"), "");
    assert_eq!(remove_comments(""), "");
}

#[test]
fn comment_markers_inside_literals_are_not_special() {
    assert_eq!(remove_comments("s = \"http://host\";\n"), "s = \"http:\n");
}

#[test]
fn renderer_program_defaults_to_java() {
    assert_eq!(renderer_program(""), "java");
    assert_eq!(renderer_program("/opt/jdk/bin/java"), "/opt/jdk/bin/java");
}

#[test]
fn exporting_message_names_the_class() {
    let class = analyse_source(FOO).unwrap();
    assert_eq!(exporting_message(&class), "Exporting Foo");
}

#[test]
fn minimal_class_on_one_line() {
    let class = analyse_source(FOO_ONE_LINE).unwrap();
    assert_eq!(class.to_str(), "public\nFoo\n+ x: int\n+ Foo(x: int)\n+ getX(): int\n");
}

#[test]
fn interface_on_one_line() {
    let class = analyse_source(BAR_ONE_LINE).unwrap();
    let summary = class.to_str();
    assert_eq!(summary, "\n<<interface>>\nBar\n+ doIt(): void\n");
    assert!(!summary.contains("[static]"));
}

#[test]
fn interface_keeps_written_modifiers() {
    let class = analyse_source("interface Shape {\n    private double area();\n    static Shape unit();\n}\n").unwrap();
    assert_eq!(class.to_str(), "\n<<interface>>\nShape\n- area(): double\n+ unit(): Shape [static]\n");
}

#[test]
fn class_method_without_modifier_keeps_default() {
    let caps = vec![groups(&[
        Some("\n  int size()"), Some("\n"), None, None, None, None, Some(" int"), Some("int"),
        Some(" size"), Some("size"), Some(""),
    ])];
    assert_eq!(Method::vec_from_matches(&caps, false).unwrap()[0].access_type, AccessType::Default);
    assert_eq!(Method::vec_from_matches(&caps, true).unwrap()[0].access_type, AccessType::Public);
}
