use plang_rust::parse::parse_input;
use plang_rust::parse::Bytecode;
use plang_rust::interp::run;

const LEX_SRC: &str = r#"%%
class "CLASS"
def "DEF"
let "LET"
if "IF"
for "FOR"
new "NEW"
raise "RAISE"
[0-9]+ "INT_LITERAL"
["][^"]*["] "STR_LITERAL"
[a-zA-Z_][a-zA-Z0-9_]* "IDENTIFIER"
== "EQEQ"
\<= "LTEQ"
>= "GTEQ"
\< "LT"
> "GT"
\+ "PLUS"
- "MINUS"
= "EQ"
\. "DOT"
\( "LPAREN"
\) "RPAREN"
\{ "LBRACE"
\} "RBRACE"
; "SEMI"
, "COMMA"
[ \t\n\r]+ ;
"#;

const YACC_SRC: &str = r#"%start prog
%%
prog : class_def
     | prog class_def
     ;
class_def : "CLASS" "IDENTIFIER" "LPAREN" "RPAREN" "LBRACE" block_statements "RBRACE"
          | "CLASS" "IDENTIFIER" "LPAREN" "IDENTIFIER" "RPAREN" "LBRACE" block_statements "RBRACE"
          ;
block_statements : statement
                 | block_statements "SEMI" statement
                 ;
statement : expression
          | if_statement
          | let_statement
          | for_statement
          | func_def
          | raise
          ;
func_def : "DEF" "IDENTIFIER" "LPAREN" parameter_list_opt "RPAREN" block ;
parameter_list_opt : parameter_list
                   |
                   ;
parameter_list : "IDENTIFIER"
               | parameter_list "COMMA" "IDENTIFIER"
               ;
block : "LBRACE" block_statements "RBRACE" ;
if_statement : "IF" expression block ;
for_statement : "FOR" "LPAREN" statement "SEMI" expression "SEMI" statement "RPAREN" block ;
let_statement : "LET" "IDENTIFIER" "EQ" expression ;
raise : "RAISE" ;
expression : variable
           | binary_expression
           | method_invocation
           | method_invocation_same_class
           | field_access
           | field_set
           | class_instance_creation
           | literal
           ;
binary_expression : operand binary_op operand ;
binary_op : "PLUS"
          | "MINUS"
          | "LTEQ"
          | "GTEQ"
          | "LT"
          | "GT"
          | "EQEQ"
          ;
operand : variable
        | literal
        | method_invocation
        | method_invocation_same_class
        | field_access
        ;
variable : "IDENTIFIER" ;
literal : "INT_LITERAL"
        | "STR_LITERAL"
        ;
method_invocation : "IDENTIFIER" "DOT" "IDENTIFIER" "LPAREN" arg_list_opt "RPAREN" ;
method_invocation_same_class : "IDENTIFIER" "LPAREN" arg_list_opt "RPAREN" ;
field_access : "IDENTIFIER" "DOT" "IDENTIFIER" ;
field_set : "IDENTIFIER" "DOT" "IDENTIFIER" "EQ" expression ;
class_instance_creation : "NEW" "IDENTIFIER" "LPAREN" arg_list_opt "RPAREN" ;
arg_list_opt : arg_list
             |
             ;
arg_list : expression
         | arg_list "COMMA" expression
         ;
"#;

fn build_bytecode(source: String) -> Bytecode {
    parse_input(source, LEX_SRC, YACC_SRC).unwrap()
}

#[test]
fn main_returns() {
    let src = "
        class global() {
            def main() {
                666
            }
        }
    ";
    let bc = build_bytecode(src.to_string());
    let res = run(bc);
    assert_eq!(res, "666");
}

#[test]
fn main_with_call() {
    let src = "
        class global() {
            def main() {
                hello()
            };

            def hello() {
                678
            }
        }
    ";
    let bc = build_bytecode(src.to_string());
    let res = run(bc);
    assert_eq!(res, "678");
}

#[test]
fn call_with_args() {
    let src = "
        class global() {
            def main() {
                hello(123)
            };

            def hello(x) {
                x
            }
        }
    ";
    let bc = build_bytecode(src.to_string());
    println!("{:?}", bc);
    let res = run(bc);
    assert_eq!(res, "123");
}

#[test]
fn add_operator() {
    let src = "
        class global() {
            def main() {
                5 + 5
            }
        }
    ";
    let bc = build_bytecode(src.to_string());
    println!("{:?}", bc);
    let res = run(bc);
    assert_eq!(res, "10");
}

#[test]
fn sub_operator() {
    let src = "
        class global() {
            def main() {
               666 - 66
            }
        }
    ";
    let bc = build_bytecode(src.to_string());
    println!("{:?}", bc);
    let res = run(bc);
    assert_eq!(res, "600");
}

#[test]
fn cmp_eq() {
    let src = "
        class global() {
            def main() {
               666 == 666
            }
        }
    ";
    let bc = build_bytecode(src.to_string());
    println!("{:?}", bc);
    let res = run(bc);
    assert_eq!(res, "true");
}

#[test]
fn cmp_eq_false() {
    let src = "
        class global() {
            def main() {
               66 == 666
            }
        }
    ";
    let bc = build_bytecode(src.to_string());
    println!("{:?}", bc);
    let res = run(bc);
    assert_eq!(res, "false");
}

#[test]
fn cmp_lt() {
    let src = "
        class global() {
            def main() {
               6 < 666
            }
        }
    ";
    let bc = build_bytecode(src.to_string());
    println!("{:?}", bc);
    let res = run(bc);
    assert_eq!(res, "true");
}

#[test]
fn cmp_lte() {
    let src = "
        class global() {
            def main() {
               666 <= 666
            }
        }
    ";
    let bc = build_bytecode(src.to_string());
    println!("{:?}", bc);
    let res = run(bc);
    assert_eq!(res, "true");
}

#[test]
fn cmp_gt() {
    let src = "
        class global() {
            def main() {
               666 > 666
            }
        }
    ";
    let bc = build_bytecode(src.to_string());
    println!("{:?}", bc);
    let res = run(bc);
    assert_eq!(res, "false");
}

#[test]
fn cmp_gte() {
    let src = "
        class global() {
            def main() {
               666 >= 666
            }
        }
    ";
    let bc = build_bytecode(src.to_string());
    println!("{:?}", bc);
    let res = run(bc);
    assert_eq!(res, "true");
}

#[test]
fn let_statement() {
    let src = "
        class global() {
            def main() {
               let x = 666;
               x
            }
        }
    ";
    let bc = build_bytecode(src.to_string());
    println!("{:?}", bc);
    let res = run(bc);
    assert_eq!(res, "666");
}

#[test]
fn let_shadow() {
    let src = "
        class global() {
            def main() {
               let x = 666;
               let x = 123;
               x
            }
        }
    ";
    let bc = build_bytecode(src.to_string());
    println!("{:?}", bc);
    let res = run(bc);
    assert_eq!(res, "123");
}

#[test]
fn if_statement() {
    let src = "
        class global() {
            def main() {
               let x = 666;
               if x == 666 {
                  let x = 123
               };
               x
            }
        }
    ";
    let bc = build_bytecode(src.to_string());
    println!("{:?}", bc);
    let res = run(bc);
    assert_eq!(res, "123");
}

#[test]
fn if_statement_cond_false() {
    let src = "
        class global() {
            def main() {
               let x = 666;
               if x == 123 {
                  let x = 999
               };
               x
            }
        }
    ";
    let bc = build_bytecode(src.to_string());
    println!("{:?}", bc);
    let res = run(bc);
    assert_eq!(res, "666");
}

#[test]
fn for_loop() {
    let src = "
        class global() {
            def main() {
               let x = 0;
               for(let i = 0; i<=10; let i = i + 1){
                let x = i
               };
               x
            }
        }
    ";
    let bc = build_bytecode(src.to_string());
    println!("{:?}", bc);
    let res = run(bc);
    assert_eq!(res, "10");
}

#[test]
fn nested_for() {
    let src = "
        class global() {
            def main() {
               let x = 0;
               for(let i = 0; i<10; let i = i + 1){
                   for(let j = 0; j<10; let j = j + 1){
                        let x = x + 1
                   }
               };
               x
            }
        }
    ";
    let bc = build_bytecode(src.to_string());
    println!("{:?}", bc);
    let res = run(bc);
    assert_eq!(res, "100");
}

#[test]
fn passing_args() {
    let src = "
        class global() {
            def main() {
                let hello = 5;
                foo(hello);
                hello
            };

            def foo(x) {
                let x = 10;
                x
            }
        }
    ";
    let bc = build_bytecode(src.to_string());
    println!("{:?}", bc);
    let res = run(bc);
    assert_eq!(res, "5");
}

#[test]
fn instantiate_obj() {
    let src = "
        class global() {
            def main() {
                let x = new Foo();
                x.y
            }
        }

        class Foo() {
            def construct(self) {
                self.y = 6
            }
        }
    ";
    let bc = build_bytecode(src.to_string());
    println!("{:?}", bc);
    let res = run(bc);
    assert_eq!(res, "6");
}

#[test]
fn instantiate_obj_args() {
    let src = "
        class global() {
            def main() {
                let x = new Foo(5, 6);
                x.x
            }
        }

        class Foo() {
            def construct(self, x, y) {
                self.x = x
            }
        }
    ";
    let bc = build_bytecode(src.to_string());
    println!("{:?}", bc);
    let res = run(bc);
    assert_eq!(res, "5");
}

#[test]
fn raise_exception() {
    let src = "
        class global() {
            def main() {
                1 + foo()
            };

            def foo() {
                raise
            }
        }
    ";
    let bc = build_bytecode(src.to_string());
    println!("{:?}", bc);
    let res = run(bc);
    assert_eq!(res, "");
}
