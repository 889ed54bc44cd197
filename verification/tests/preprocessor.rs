use gstudy::preprocessor::command::{parse_commands, FileParse};
use gstudy::preprocessor::config::{initial_vars, Preprocessor, PreprocessorConfig};
use gstudy::preprocessor::error::PreprocessError;
use gstudy::preprocessor::eval::Value;
use gstudy::preprocessor::expand::{expand, IncludeNode};
use gstudy::preprocessor::loader::IncludeLoader;
use gstudy::preprocessor::syntax::{BinOp, Command, Expr, Literal};

fn chars(s: &str) -> Vec<char> {
    s.chars().collect()
}

fn text(v: &[char]) -> String {
    v.iter().collect()
}

/// Loads `root` and the files it includes from `files` (path, content),
/// include sources naming paths verbatim, then expands with `defines`.
fn run(files: &[(&str, &str)], root: &str, defines: &[(&str, &str)]) -> Result<String, PreprocessError> {
    let mut cfg = PreprocessorConfig::new();
    for (k, v) in defines {
        cfg = cfg.with_define(k.to_string(), v.to_string());
    }
    let pre = Preprocessor::new(cfg);
    let vars = pre.initial_vars()?;
    let content = |p: &str| files.iter().find(|(q, _)| *q == p).map(|(_, c)| chars(c));
    let mut loader = IncludeLoader::new(chars(root), &content(root).unwrap())?;
    while let Some(src) = loader.next_include() {
        let path: String = text(&src);
        if content(&path).is_none() {
            return Err(PreprocessError::IncludeNotFound(loader.current_file()));
        }
        match loader.find_file(&chars(&path)) {
            Some(i) => loader.link_include(i)?,
            None => loader.load_include(chars(&path), &content(&path).unwrap())?,
        }
    }
    let nodes = loader.finish()?;
    expand(&nodes, vars).map(|v| text(&v))
}

fn run1(src: &str) -> Result<String, PreprocessError> {
    run(&[("main.wgsl", src)], "main.wgsl", &[])
}

#[test]
fn plain_text_is_kept() {
    assert_eq!(run1("fn main() { return 1; }\n").unwrap(), "fn main() { return 1; }\n");
}

#[test]
fn empty_file_expands_to_nothing() {
    assert_eq!(run1("").unwrap(), "");
}

#[test]
fn plain_text_parses_to_one_raw_command() {
    match parse_commands(&chars("a = b; // c\n")) {
        FileParse::Parsed(cs) => {
            assert_eq!(cs.len(), 1);
            match &cs[0] {
                Command::Raw(t) => assert_eq!(text(t), "a = b; // c\n"),
                _ => panic!("not raw text"),
            }
        }
        _ => panic!("does not parse"),
    }
}

#[test]
fn decl_then_reference_prints_value() {
    let src = "///#decl x = 1 + 2 * 3\nvalue #{x};\n";
    assert_eq!(run1(src).unwrap(), "value 7;\n");
}

#[test]
fn operator_precedence_and_parentheses() {
    assert_eq!(run1("///#decl x = (1 + 2) * 3\n#{x}").unwrap(), "9");
    assert_eq!(run1("///#decl x = 10 - 2 - 3\n#{x}").unwrap(), "5");
    assert_eq!(run1("///#decl x = 0 - 4 / 2\n#{x}").unwrap(), "-2");
    assert_eq!(run1("///#decl x = 1 << 4\n#{x}").unwrap(), "16");
}

#[test]
fn minus_is_never_a_prefix_operator() {
    // `-` is read as the binary operator, so `-4` is no expression: the
    // declaration gets no value and the rest of the line stays text.
    assert_eq!(run1("///#decl x = -4\n#{x}").unwrap(), "= -4\ntrue");
}

#[test]
fn comparisons_and_booleans() {
    assert_eq!(run1("///#decl x = 3 > 2\n#{x}").unwrap(), "true");
    assert_eq!(run1("///#decl x = 3 <= 2\n#{x}").unwrap(), "false");
    assert_eq!(run1("///#decl x = True && False\n#{x}").unwrap(), "false");
    assert_eq!(run1("///#decl x = True || False\n#{x}").unwrap(), "true");
    assert_eq!(run1("///#decl x = !False\n#{x}").unwrap(), "true");
}

#[test]
fn strings_print_with_quotes() {
    assert_eq!(run1("///#decl s = \"abc\"\n#{s}").unwrap(), "\"abc\"");
}

#[test]
fn decl_without_value_is_true() {
    assert_eq!(run1("///#decl flag\n#{flag}").unwrap(), "true");
}

#[test]
fn unknown_reference_prints_nothing() {
    assert_eq!(run1("a#{nothing}b").unwrap(), "ab");
}

#[test]
fn none_prints_none() {
    assert_eq!(run1("#{None}").unwrap(), "None");
}

#[test]
fn if_else_selects_branch() {
    let src = "///#if 1 > 2\nA\n///#else\nB\n///#endif\nC";
    assert_eq!(run1(src).unwrap(), "B\nC");
    // Once a branch was entered, `else` does not close it: both stay active.
    let src = "///#if 1 < 2\nA\n///#else\nB\n///#endif\nC";
    assert_eq!(run1(src).unwrap(), "A\nB\nC");
}

#[test]
fn elseif_enters_first_true_branch_and_stays() {
    let src = "///#if False\nA\n///#elseif True\nB\n///#elseif True\nC\n///#else\nD\n///#endif\n";
    assert_eq!(run1(src).unwrap(), "B\nC\nD\n");
    let src = "///#if False\nA\n///#elseif False\nB\n///#else\nD\n///#endif\n";
    assert_eq!(run1(src).unwrap(), "D\n");
}

#[test]
fn undefined_condition_is_false() {
    let src = "///#if missing\nA\n///#endif\nB";
    assert_eq!(run1(src).unwrap(), "B");
}

#[test]
fn decl_in_false_branch_is_skipped() {
    let src = "///#decl x = 1\n///#if False\n///#assign x = 2\n///#endif\n#{x}";
    assert_eq!(run1(src).unwrap(), "1");
}

#[test]
fn nested_conditionals() {
    let src = "///#if True\n///#if False\nA\n///#else\nB\n///#endif\n///#endif\n";
    assert_eq!(run1(src).unwrap(), "B\n");
}

#[test]
fn counter_yields_successive_values() {
    let src = "///#decl c = _atomic_counter(5, 2)\n#{c},#{c},#{c}";
    assert_eq!(run1(src).unwrap(), "5,7,9");
}

#[test]
fn counter_refuses_wrong_arguments() {
    assert_eq!(
        run1("///#decl c = _atomic_counter(5)\n").unwrap_err(),
        PreprocessError::InvalidParameterCount
    );
    assert_eq!(
        run1("///#decl c = _atomic_counter(\"a\", 1)\n").unwrap_err(),
        PreprocessError::InvalidParameterType
    );
    assert_eq!(
        run1("///#decl c = _atomic_counter(1, True)\n").unwrap_err(),
        PreprocessError::InvalidParameterType
    );
}

#[test]
fn unknown_function_is_none() {
    assert_eq!(run1("///#decl x = f(1, 2)\n#{x}").unwrap(), "None");
}

#[test]
fn type_mismatch_is_refused() {
    assert_eq!(run1("///#decl x = 1 + True\n").unwrap_err(), PreprocessError::TypeMismatch);
}

#[test]
fn operator_not_supported_is_refused() {
    assert_eq!(run1("///#decl x = True + True\n").unwrap_err(), PreprocessError::OpNotSupported);
}

#[test]
fn overflow_aborts() {
    assert_eq!(
        run1("///#decl x = 9223372036854775807 + 1\n").unwrap_err(),
        PreprocessError::Aborted
    );
    assert_eq!(run1("///#decl x = 1 / 0\n").unwrap_err(), PreprocessError::Aborted);
}

#[test]
fn float_values_are_refused() {
    assert_eq!(run1("///#decl x = 1.5\n#{x}").unwrap_err(), PreprocessError::FloatValue);
}

#[test]
fn condition_must_be_boolean() {
    assert_eq!(run1("///#if 1\nA\n///#endif\n").unwrap_err(), PreprocessError::ConditionType);
}

#[test]
fn unmatched_conditionals_are_refused() {
    assert_eq!(run1("///#endif\n").unwrap_err(), PreprocessError::UnexpectedEndIf);
    assert_eq!(run1("///#else\n").unwrap_err(), PreprocessError::UnexpectedElse);
    assert_eq!(run1("///#elseif True\n").unwrap_err(), PreprocessError::UnexpectedElseIf);
}

#[test]
fn malformed_directive_fails_to_parse() {
    assert_eq!(run1("///#if\n").unwrap_err(), PreprocessError::Parse(0));
}

#[test]
fn include_inserts_file_once() {
    let files = [
        ("main", "///#include \"a\"///#include \"a\"M"),
        ("a", "A"),
    ];
    assert_eq!(run(&files, "main", &[]).unwrap(), "A\nM");
}

#[test]
fn include_in_false_branch_is_still_expanded() {
    let files = [("main", "///#if False\n///#include \"a\"\n///#endif\nM"), ("a", "A")];
    assert_eq!(run(&files, "main", &[]).unwrap(), "A\nM");
}

#[test]
fn included_declarations_are_visible() {
    let files = [("main", "///#include \"lib\"#{x}"), ("lib", "///#decl x = 42\n")];
    assert_eq!(run(&files, "main", &[]).unwrap(), "\n42");
}

#[test]
fn diamond_includes_expand_shared_file_once() {
    let files = [
        ("main", "///#include \"a\"///#include \"b\""),
        ("a", "///#include \"c\"A"),
        ("b", "///#include \"c\"B"),
        ("c", "C"),
    ];
    assert_eq!(run(&files, "main", &[]).unwrap(), "C\nA\nB\n");
}

#[test]
fn cyclic_includes_are_refused() {
    let files = [("main", "///#include \"a\"\n"), ("a", "///#include \"main\"\n")];
    assert_eq!(run(&files, "main", &[]).unwrap_err(), PreprocessError::CyclicInclude);
    let files = [("main", "///#include \"main\"\n")];
    assert_eq!(run(&files, "main", &[]).unwrap_err(), PreprocessError::CyclicInclude);
}

#[test]
fn missing_include_is_refused() {
    let files = [("main", "///#include \"nope\"\n")];
    assert_eq!(run(&files, "main", &[]).unwrap_err(), PreprocessError::IncludeNotFound(0));
}

#[test]
fn included_file_that_fails_to_parse_is_named() {
    let files = [("main", "///#include \"a\"\n"), ("a", "///#if\n")];
    assert_eq!(run(&files, "main", &[]).unwrap_err(), PreprocessError::Parse(1));
}

#[test]
fn defines_set_variables() {
    let src = "#{A} #{B} #{C} #{D}";
    let defines = [("A", "True"), ("B", ""), ("C", "12"), ("D", "\"x\"")];
    assert_eq!(
        run(&[("m", src)], "m", &defines).unwrap(),
        "true None 12 \"x\""
    );
}

#[test]
fn define_copies_earlier_define() {
    let defines = [("A", "3"), ("B", "A")];
    assert_eq!(run(&[("m", "#{B}")], "m", &defines).unwrap(), "3");
}

#[test]
fn invalid_define_is_refused() {
    let defines = [("A", "1x")];
    assert_eq!(run(&[("m", "")], "m", &defines).unwrap_err(), PreprocessError::InvalidDefine);
}

#[test]
fn redefining_keeps_last_value() {
    let cfg = PreprocessorConfig::new()
        .with_define("A".to_string(), "1".to_string())
        .with_define("B".to_string(), "2".to_string())
        .with_define("A".to_string(), "3".to_string());
    assert_eq!(cfg.defines.len(), 2);
    assert_eq!(cfg.defines[0], ("A".to_string(), "3".to_string()));
    let vars = initial_vars(&cfg.defines).unwrap();
    let last = &vars[vars.len() - 1];
    assert_eq!(text(&last.0), "B");
    assert!(matches!(last.1, Value::Number(2)));
}

#[test]
fn expression_ast_is_built() {
    match parse_commands(&chars("///#decl x = a + 1\n")) {
        FileParse::Parsed(cs) => match &cs[0] {
            Command::Decl(n, Some(Expr::Binary(l, BinOp::Add, r))) => {
                assert_eq!(text(n), "x");
                assert!(matches!(**l, Expr::Ident(_)));
                assert!(matches!(**r, Expr::Lit(Literal::Number(1))));
            }
            _ => panic!("unexpected command"),
        },
        _ => panic!("does not parse"),
    }
}

#[test]
fn expand_without_files_is_empty() {
    let nodes: Vec<IncludeNode> = Vec::new();
    assert_eq!(expand(&nodes, Vec::new()).unwrap(), Vec::<char>::new());
}
