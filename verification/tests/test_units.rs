use plang_rust::interp::{run, VM};
use plang_rust::numfmt::{i32_to_string, parse_dec_i32, u64_to_string};
use plang_rust::parse::{parse_input, Bytecode, ParseError};
use plang_rust::value::{add_values, cmp_values, sub_values, CmpOp, NativeType};

const LEX_SRC: &str = r#"%%
class "CLASS"
def "DEF"
let "LET"
if "IF"
for "FOR"
new "NEW"
raise "RAISE"
[0-9]+ "INT_LITERAL"
["][^"]*["] "STR_LITERAL"
[a-zA-Z_][a-zA-Z0-9_]* "IDENTIFIER"
== "EQEQ"
\<= "LTEQ"
>= "GTEQ"
\< "LT"
> "GT"
\+ "PLUS"
- "MINUS"
= "EQ"
\. "DOT"
\( "LPAREN"
\) "RPAREN"
\{ "LBRACE"
\} "RBRACE"
; "SEMI"
, "COMMA"
[ \t\n\r]+ ;
"#;

const YACC_SRC: &str = r#"%start prog
%%
prog : class_def
     | prog class_def
     ;
class_def : "CLASS" "IDENTIFIER" "LPAREN" "RPAREN" "LBRACE" block_statements "RBRACE"
          | "CLASS" "IDENTIFIER" "LPAREN" "IDENTIFIER" "RPAREN" "LBRACE" block_statements "RBRACE"
          ;
block_statements : statement
                 | block_statements "SEMI" statement
                 ;
statement : expression
          | if_statement
          | let_statement
          | for_statement
          | func_def
          | raise
          ;
func_def : "DEF" "IDENTIFIER" "LPAREN" parameter_list_opt "RPAREN" block ;
parameter_list_opt : parameter_list
                   |
                   ;
parameter_list : "IDENTIFIER"
               | parameter_list "COMMA" "IDENTIFIER"
               ;
block : "LBRACE" block_statements "RBRACE" ;
if_statement : "IF" expression block ;
for_statement : "FOR" "LPAREN" statement "SEMI" expression "SEMI" statement "RPAREN" block ;
let_statement : "LET" "IDENTIFIER" "EQ" expression ;
raise : "RAISE" ;
expression : variable
           | binary_expression
           | method_invocation
           | method_invocation_same_class
           | field_access
           | field_set
           | class_instance_creation
           | literal
           ;
binary_expression : operand binary_op operand ;
binary_op : "PLUS"
          | "MINUS"
          | "LTEQ"
          | "GTEQ"
          | "LT"
          | "GT"
          | "EQEQ"
          ;
operand : variable
        | literal
        | method_invocation
        | method_invocation_same_class
        | field_access
        ;
variable : "IDENTIFIER" ;
literal : "INT_LITERAL"
        | "STR_LITERAL"
        ;
method_invocation : "IDENTIFIER" "DOT" "IDENTIFIER" "LPAREN" arg_list_opt "RPAREN" ;
method_invocation_same_class : "IDENTIFIER" "LPAREN" arg_list_opt "RPAREN" ;
field_access : "IDENTIFIER" "DOT" "IDENTIFIER" ;
field_set : "IDENTIFIER" "DOT" "IDENTIFIER" "EQ" expression ;
class_instance_creation : "NEW" "IDENTIFIER" "LPAREN" arg_list_opt "RPAREN" ;
arg_list_opt : arg_list
             |
             ;
arg_list : expression
         | arg_list "COMMA" expression
         ;
"#;

fn compile(source: &str) -> Result<Bytecode, ParseError> {
    parse_input(source.to_string(), LEX_SRC, YACC_SRC)
}

#[test]
fn decimal_rendering() {
    assert_eq!(i32_to_string(0), "0");
    assert_eq!(i32_to_string(10), "10");
    assert_eq!(i32_to_string(-7), "-7");
    assert_eq!(i32_to_string(i32::MAX), "2147483647");
    assert_eq!(i32_to_string(i32::MIN), "-2147483648");
    assert_eq!(u64_to_string(90210), "90210");
}

#[test]
fn decimal_reading() {
    assert_eq!(parse_dec_i32("0"), Some(0));
    assert_eq!(parse_dec_i32("666"), Some(666));
    assert_eq!(parse_dec_i32("2147483647"), Some(i32::MAX));
    assert_eq!(parse_dec_i32("2147483648"), None);
    assert_eq!(parse_dec_i32(""), None);
    assert_eq!(parse_dec_i32("12x"), None);
    assert_eq!(parse_dec_i32("-1"), None);
}

#[test]
fn pretty_forms() {
    assert_eq!(NativeType::Int(666).pretty(), "666");
    assert_eq!(NativeType::Int(-5).pretty(), "-5");
    assert_eq!(NativeType::Bool(true).pretty(), "true");
    assert_eq!(NativeType::Bool(false).pretty(), "false");
    assert_eq!(NativeType::Str("hi".to_string()).pretty(), "hi");
    assert_eq!(NativeType::ObjectRef(3).pretty(), "&3");
    assert_eq!(NativeType::NoneType.pretty(), "None");
}

#[test]
fn int_arithmetic() {
    let r = add_values(&NativeType::Int(5), &NativeType::Int(5));
    assert!(matches!(r, Some(NativeType::Int(10))));
    let r = sub_values(&NativeType::Int(666), &NativeType::Int(66));
    assert!(matches!(r, Some(NativeType::Int(600))));
    let r = add_values(&NativeType::Int(i32::MAX), &NativeType::Int(1));
    assert!(matches!(r, Some(NativeType::Int(i32::MIN))));
}

#[test]
fn double_arithmetic_promotes() {
    let a = NativeType::Double(1.5f32.to_bits());
    let b = NativeType::Double(2.25f32.to_bits());
    let r = add_values(&a, &b);
    let want = (1.5f32 + 2.25f32).to_bits();
    assert!(matches!(r, Some(NativeType::Double(bits)) if bits == want));
    let r = sub_values(&a, &b);
    let want = (1.5f32 - 2.25f32).to_bits();
    assert!(matches!(r, Some(NativeType::Double(bits)) if bits == want));
    // a permutation with an Int: still a Double, the Int converted
    let r = add_values(&NativeType::Int(2), &a);
    let want = (2.0f32 + 1.5f32).to_bits();
    assert!(matches!(r, Some(NativeType::Double(bits)) if bits == want));
    let r = sub_values(&a, &NativeType::Int(2));
    let want = (1.5f32 - 2.0f32).to_bits();
    assert!(matches!(r, Some(NativeType::Double(bits)) if bits == want));
}

#[test]
fn arithmetic_type_errors() {
    let r = add_values(&NativeType::Int(1), &NativeType::Bool(true));
    assert!(r.is_none());
    let r = sub_values(&NativeType::Str("a".to_string()), &NativeType::Int(1));
    assert!(r.is_none());
    let r = cmp_values(&CmpOp::Lt, &NativeType::NoneType, &NativeType::Int(1));
    assert!(r.is_none());
}

#[test]
fn double_comparisons() {
    let a = NativeType::Double(2.5f32.to_bits());
    let r = cmp_values(&CmpOp::Gt, &a, &NativeType::Int(2));
    assert!(matches!(r, Some(NativeType::Bool(true))));
    let r = cmp_values(&CmpOp::Gteq, &NativeType::Int(2), &a);
    assert!(matches!(r, Some(NativeType::Bool(false))));
    let r = cmp_values(&CmpOp::Lt, &NativeType::Int(2), &a);
    assert!(matches!(r, Some(NativeType::Bool(true))));
    let r = cmp_values(&CmpOp::Lteq, &a, &a);
    assert!(matches!(r, Some(NativeType::Bool(true))));
    let r = cmp_values(&CmpOp::Eqeq, &a, &NativeType::Double(2.5f32.to_bits()));
    assert!(matches!(r, Some(NativeType::Bool(true))));
    let nan = NativeType::Double(f32::NAN.to_bits());
    let r = cmp_values(&CmpOp::Eqeq, &nan, &nan);
    assert!(matches!(r, Some(NativeType::Bool(false))));
}

#[test]
fn int_literal_text_round_trip() {
    for n in [0i32, 1, 9, 10, 123, 65536, i32::MAX] {
        let src = format!(
            "class global() {{ def main() {{ {} }} }}",
            n
        );
        let bc = compile(&src).unwrap();
        assert_eq!(run(bc), format!("{}", n));
    }
}

#[test]
fn string_literal_is_verbatim() {
    let src = "class global() { def main() { \"hi there\" } }";
    let bc = compile(src).unwrap();
    // the raw lexeme keeps its quotes
    assert_eq!(run(bc), "\"hi there\"");
}

#[test]
fn compiled_calls_are_resolved() {
    let src = "
        class global() {
            def main() {
                let x = new Foo(1);
                helper(2)
            };
            def helper(n) { n }
        }
        class Foo() {
            def construct(self, n) { self.n = n }
        }
    ";
    let bc = compile(src).unwrap();
    assert!(bc.calls_resolved());
}

#[test]
fn unresolved_call_is_detected() {
    // a call to a function that is never defined compiles, and the image
    // says so
    let src = "class global() { def main() { nope() } }";
    let bc = compile(src).unwrap();
    assert!(!bc.calls_resolved());
}

#[test]
fn unresolved_call_publishes_nothing() {
    let src = "class global() { def main() { nope() } }";
    let bc = compile(src).unwrap();
    assert_eq!(run(bc), "");
}

#[test]
fn missing_main_publishes_nothing() {
    let src = "class global() { def helper() { 1 } }";
    let bc = compile(src).unwrap();
    assert_eq!(run(bc), "");
}

#[test]
fn broken_lexer_is_reported() {
    let r = parse_input("class global() { def main() { 1 } }".to_string(), "%%\n[ \"", YACC_SRC);
    assert!(matches!(r, Err(ParseError::BrokenLexer)));
}

#[test]
fn broken_parser_is_reported() {
    let r = parse_input(
        "class global() { def main() { 1 } }".to_string(),
        LEX_SRC,
        "%start prog\n%%\nprog : \"NOPE ;",
    );
    assert!(matches!(r, Err(ParseError::BrokenParser)));
}

#[test]
fn lexical_error_is_reported() {
    let r = compile("class global() { def main() { 1 @ 2 } }");
    assert!(matches!(r, Err(ParseError::LexicalError)));
}

#[test]
fn syntax_error_is_reported() {
    let r = compile("class class() { }");
    assert!(matches!(r, Err(ParseError::SyntaxError)));
}

#[test]
fn oversized_literal_is_a_generator_error() {
    let r = compile("class global() { def main() { 4294967296 } }");
    assert!(matches!(r, Err(ParseError::GeneratorError(_))));
}

#[test]
fn undeclared_local_is_a_generator_error() {
    let r = compile("class global() { def main() { x } }");
    assert!(matches!(r, Err(ParseError::GeneratorError(_))));
}

#[test]
fn unhandled_raise_leaves_a_backtrace() {
    let src = "
        class global() {
            def main() {
                1 + foo()
            };

            def foo() {
                raise
            }
        }
    ";
    let bc = compile(src).unwrap();
    let mut vm = VM::new(bc);
    let res = vm.run();
    assert!(res.is_none());
    assert_eq!(vm.backtrace, vec!["foo".to_string(), "main".to_string()]);
}

#[test]
fn vm_run_returns_the_value() {
    let src = "class global() { def main() { 5 + 5 } }";
    let bc = compile(src).unwrap();
    let mut vm = VM::new(bc);
    let res = vm.run();
    assert!(matches!(res, Some(NativeType::Int(10))));
}

#[test]
fn dup_then_pop_preserves_the_result() {
    // instance creation emits Dup (for the constructor's receiver) and a
    // Pop of the constructor's None; the object survives both
    let src = "
        class global() {
            def main() {
                let x = new Box(41);
                x.v + 1
            }
        }
        class Box() {
            def construct(self, v) { self.v = v }
        }
    ";
    let bc = compile(src).unwrap();
    assert_eq!(run(bc), "42");
}

#[test]
fn type_error_raises_and_unwinds() {
    // a string has no sum with an integer: TypeError, unhandled
    let src = "class global() { def main() { \"a\" + 1 } }";
    let bc = compile(src).unwrap();
    assert_eq!(run(bc), "");
}

#[test]
fn frame_primitives() {
    let mut f = plang_rust::interp::Frame::new("main".to_string(), Vec::new(), 0);
    f.push(NativeType::Int(2));
    f.push(NativeType::Int(3));
    f.dup();
    assert!(matches!(f.pop(), NativeType::Int(3)));
    f.eq();
    assert!(matches!(f.pop(), NativeType::Bool(false)));
    f.push(NativeType::Int(1));
    f.push(NativeType::Int(2));
    f.lt();
    assert!(matches!(f.pop(), NativeType::Bool(true)));
    f.push(NativeType::Int(1));
    f.push(NativeType::Int(2));
    f.gteq();
    assert!(matches!(f.pop(), NativeType::Bool(false)));
    f.push(NativeType::Int(2));
    f.push(NativeType::Int(2));
    f.lteq();
    assert!(matches!(f.pop(), NativeType::Bool(true)));
    f.push(NativeType::Int(3));
    f.push(NativeType::Int(2));
    f.gt();
    assert!(matches!(f.pop(), NativeType::Bool(true)));
    f.push(NativeType::Int(2));
    f.push(NativeType::Int(4));
    f.add();
    assert!(matches!(f.pop(), NativeType::Int(6)));
}

#[test]
fn raise_only_class_compiles_to_one_instruction() {
    let src = "class global() { raise }";
    let bc = compile(src).unwrap();
    assert_eq!(bc.bytecode.len(), 1);
    assert!(matches!(bc.bytecode[0], plang_rust::bytecode::Instr::Raise));
}
