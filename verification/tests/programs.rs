use alpha::error::{InterpreterError, RuntimeErrorKind};
use alpha::interpreter::machine::{Action, HostReply};
use alpha::interpreter::native::{HostCall, Service};
use alpha::interpreter::value::Value;
use alpha::interpreter::Interpreter;
use alpha::parser::{Expr, Parser};
use alpha::tokenizer::{Token, TokenType, Tokenizer};

fn parse_program(source: &str) -> &'static Vec<(Expr, usize)> {
    let mut tokenizer = Tokenizer::new();
    assert!(tokenizer.tokenize(source).is_ok());
    assert!(tokenizer.errors.is_empty());
    let mut parser = Parser::new(tokenizer.get_tokens());
    let program = match parser.parse() {
        Ok(program) => program,
        Err(error) => panic!("{}", error.to_string()),
    };
    Box::leak(Box::new(program))
}

fn number(text: &str) -> f64 {
    text.parse::<f64>().unwrap()
}

fn number_value(n: f64) -> HostReply<'static> {
    HostReply::Value(Value::Number(n.to_string()))
}

fn serve(call: &HostCall, printed: &mut Vec<String>) -> HostReply<'static> {
    let texts = &call.texts;
    match call.service {
        Service::ParseNumber => match texts[0].parse::<f64>() {
            Ok(n) => number_value(n),
            Err(_) => HostReply::Failed(InterpreterError::RuntimeError(
                RuntimeErrorKind::InvalidNumber(call.handle),
            )),
        },
        Service::Add => number_value(number(&texts[0]) + number(&texts[1])),
        Service::Subtract => number_value(number(&texts[0]) - number(&texts[1])),
        Service::Multiply => number_value(number(&texts[0]) * number(&texts[1])),
        Service::Divide => number_value(number(&texts[0]) / number(&texts[1])),
        Service::Remainder => number_value(number(&texts[0]) % number(&texts[1])),
        Service::Greater => {
            HostReply::Value(Value::Boolean(number(&texts[0]) > number(&texts[1])))
        }
        Service::GreaterEqual => {
            HostReply::Value(Value::Boolean(number(&texts[0]) >= number(&texts[1])))
        }
        Service::Less => HostReply::Value(Value::Boolean(number(&texts[0]) < number(&texts[1]))),
        Service::LessEqual => {
            HostReply::Value(Value::Boolean(number(&texts[0]) <= number(&texts[1])))
        }
        Service::Sqrt => number_value(number(&texts[0]).sqrt()),
        Service::Pow => number_value(number(&texts[0]).powf(number(&texts[1]))),
        Service::Abs => number_value(number(&texts[0]).abs()),
        Service::Round => number_value(number(&texts[0]).round()),
        Service::Floor => number_value(number(&texts[0]).floor()),
        Service::Ceil => number_value(number(&texts[0]).ceil()),
        Service::ToNumber => match texts[0].parse::<f64>() {
            Ok(n) => number_value(n),
            Err(_) => HostReply::Failed(InterpreterError::RuntimeError(
                RuntimeErrorKind::RuntimeError(0, String::from("Could not convert string to number")),
            )),
        },
        Service::Print => {
            printed.push(texts[0].clone());
            HostReply::Value(Value::Nil)
        }
        Service::Delay => HostReply::Task(7),
        Service::AwaitTask => {
            assert_eq!(call.handle, 7);
            HostReply::Value(Value::Nil)
        }
        Service::ResolveModule => HostReply::Located {
            absolute: false,
            resolved: format!("{}/{}", texts[1], texts[0]),
            exists: texts[0] != "missing.alpha",
            stem: if texts[0] == ".." {
                None
            } else {
                Some(texts[0].trim_end_matches(".alpha").to_string())
            },
            directory: texts[1].clone(),
        },
        Service::LoadModule => {
            printed.push(format!("load {}", texts[0]));
            if texts[0] == "/locked.alpha" {
                HostReply::Unreadable
            } else {
                HostReply::Program(parse_program("var shared = 5; print(\"module body\");"))
            }
        }
        _ => HostReply::Failed(InterpreterError::RuntimeError(RuntimeErrorKind::IoError(
            String::from("not served here"),
        ))),
    }
}

fn run(source: &str) -> (Vec<String>, Result<Value, InterpreterError>) {
    let program = parse_program(source);
    let mut interpreter = Interpreter::new();
    interpreter.interpret(program);
    let mut printed = Vec::new();
    let mut steps = 0;
    loop {
        steps += 1;
        assert!(steps < 1_000_000);
        match interpreter.step() {
            Action::Continue => {}
            Action::Finished(result) => return (printed, result),
            Action::Host(call) => {
                let reply = serve(&call, &mut printed);
                interpreter.resume(reply);
            }
        }
    }
}

fn output(source: &str) -> Vec<String> {
    let (printed, result) = run(source);
    if let Err(error) = result {
        panic!("{}", error.to_string());
    }
    printed
}

fn value_text(source: &str) -> String {
    let (_, result) = run(source);
    match result {
        Ok(value) => value.to_string(),
        Err(error) => panic!("{}", error.to_string()),
    }
}

fn error_text(source: &str) -> String {
    let (_, result) = run(source);
    match result {
        Ok(value) => panic!("no error, but {}", value.to_string()),
        Err(error) => error.to_string(),
    }
}

#[test]
fn prints_arithmetic_with_precedence() {
    assert_eq!(output("print(1 + 2 * 3);"), vec!["7"]);
}

#[test]
fn concatenates_strings() {
    assert_eq!(output("var s = \"a\" + \"b\"; print(s);"), vec!["ab"]);
}

#[test]
fn recursive_function_returns_through_if() {
    assert_eq!(
        output("fun f(n){ if (n < 2) return n; return f(n - 1)+f(n - 2);} print(f(10));"),
        vec!["55"]
    );
}

#[test]
fn hyphen_between_name_and_digit_belongs_to_the_name() {
    assert_eq!(
        error_text("fun f(n){ return n-1; } f(3);"),
        "[line 1] Error: Undefined variable n-1."
    );
}

#[test]
fn class_with_constructor_and_method() {
    assert_eq!(
        output(
            "class C { _construct(x){ this.x = x; } get(){ return this.x; } } var o = new C(7); print(o.get());"
        ),
        vec!["7"]
    );
}

#[test]
fn class_methods_may_be_written_with_fun() {
    assert_eq!(
        output("class P { fun _construct(a){ this.a = a; } fun twice(){ return this.a * 2; } } var p = new P(4); print(p.twice());"),
        vec!["8"]
    );
}

#[test]
fn array_element_is_replaced() {
    assert_eq!(output("var a = [1,2,3]; a[1] = 9; print(a[1]);"), vec!["9"]);
}

#[test]
fn async_function_is_awaited() {
    assert_eq!(
        output("async fun g(){ await delay(0); return 42; } print(await g());"),
        vec!["42"]
    );
}

#[test]
fn division_by_zero_is_caught() {
    assert_eq!(
        output("try { var x = 1/0; } catch (e) { print(\"caught\"); }"),
        vec!["caught"]
    );
}

#[test]
fn catch_binds_the_text_of_the_error() {
    assert_eq!(
        output("try { var x = 1 % 0; } catch (e) { print(e); }"),
        vec!["[line 1] Error: Division by zero."]
    );
}

#[test]
fn block_scope_does_not_leak() {
    assert_eq!(value_text("var x = 1 ; { var x = 2 } ; x == 1"), "true");
}

#[test]
fn assignment_in_block_reaches_the_outer_variable() {
    assert_eq!(value_text("var x = 1 ; { x = 2 } ; x == 2"), "true");
}

#[test]
fn or_does_not_evaluate_right_when_left_is_truthy() {
    assert_eq!(output("var a = true or print(\"right\"); print(a);"), vec!["true"]);
}

#[test]
fn and_does_not_evaluate_right_when_left_is_falsy() {
    assert_eq!(output("var a = false and print(\"right\"); print(a);"), vec!["false"]);
}

#[test]
fn or_evaluates_right_when_left_is_falsy() {
    assert_eq!(output("var a = nil or 3; print(a);"), vec!["3"]);
}

#[test]
fn zero_is_falsy_and_empty_string_is_truthy() {
    assert_eq!(
        output("if (0) print(\"zero\") else print(\"not zero\"); if (\"\") print(\"empty\") else print(\"no\");"),
        vec!["not zero", "empty"]
    );
}

#[test]
fn return_leaves_nested_blocks_of_the_function_only() {
    assert_eq!(
        output("fun f(){ { { return 1; } } print(\"never\"); return 2; } fun g(){ var r = f(); print(\"after\"); return r + 10; } print(g());"),
        vec!["after", "11"]
    );
}

#[test]
fn return_is_not_caught_by_try() {
    assert_eq!(
        output("fun f(){ try { return 5; } catch (e) { print(\"caught\"); } return 6; } print(f());"),
        vec!["5"]
    );
}

#[test]
fn return_outside_a_function_ends_the_program_with_its_value_as_error() {
    assert_eq!(error_text("return 3;"), "Return unwind the call stack: 3");
}

#[test]
fn while_loop_counts() {
    assert_eq!(
        output("var i = 0; var s = 0; while (i < 4) { s = s + i; i = i + 1; } print(s);"),
        vec!["6"]
    );
}

#[test]
fn for_loop_counts_and_yields_last_body_value() {
    assert_eq!(
        output("var t = 0; for (var i = 0; i < 3; i = i + 1) { t = t + 2; } print(t);"),
        vec!["6"]
    );
    assert_eq!(value_text("for (var i = 0; i < 3; i = i + 1) i * 2"), "4");
}

#[test]
fn loop_that_never_runs_yields_nil() {
    assert_eq!(value_text("while (false) 1"), "nil");
}

#[test]
fn dictionary_get_and_set() {
    assert_eq!(
        output("var d = dict { \"a\": 1, \"b\": 2 }; d[\"a\"] = 5; print(d[\"a\"]); print(d[\"b\"]);"),
        vec!["5", "2"]
    );
}

#[test]
fn dictionary_key_must_be_a_string() {
    assert_eq!(error_text("var d = dict { 1: 2 };"), "[line 1] Error: Invalid dictionary key.");
}

#[test]
fn mixed_addition_converts_to_string() {
    assert_eq!(output("print(\"n=\" + 1); print([1, \"a\"] + nil);"), vec!["n=1", "[1, a]nil"]);
}

#[test]
fn instance_is_shared_between_references() {
    assert_eq!(
        output("class B { _construct(){ this.n = 0; } bump(){ this.n = this.n + 1; return this.n; } } var a = new B(); var b = a; a.bump(); b.bump(); print(a.n); print(b.n);"),
        vec!["2", "2"]
    );
}

#[test]
fn second_import_of_a_module_does_nothing() {
    let printed = output("import \"m.alpha\"; import \"m.alpha\"; print(shared);");
    assert_eq!(printed, vec!["load /m.alpha", "module body", "5"]);
}

#[test]
fn import_of_a_missing_file_fails() {
    assert_eq!(
        error_text("import \"missing.alpha\";"),
        "[line 0] Error: Could not find module: missing.alpha"
    );
    assert_eq!(error_text("import \"..\";"), "[line 0] Error: Invalid module path");
    assert_eq!(
        error_text("import \"locked.alpha\";"),
        "[line 0] Error: Could not read module file: /locked.alpha"
    );
}

#[test]
fn awaiting_a_fulfilled_promise_gives_its_value_again() {
    assert_eq!(
        output("async fun g(){ return 4; } var p = g(); print(await p); print(await p);"),
        vec!["4", "4"]
    );
}

#[test]
fn await_of_something_else_is_an_invalid_call() {
    assert_eq!(error_text("\n\nawait 3;"), "[line 3] Error: Invalid call.");
}

#[test]
fn undefined_variable_is_reported() {
    assert_eq!(error_text("print(missing);"), "[line 1] Error: Undefined variable missing.");
}

#[test]
fn assignment_to_an_unknown_name_fails() {
    assert_eq!(error_text("missing = 1;"), "[line 0] Error: Undefined variable missing.");
}

#[test]
fn wrong_number_of_arguments() {
    assert_eq!(
        error_text("fun f(a, b){ return a; } f(1);"),
        "[line 1] Error: Expected 2 arguments but got 1"
    );
}

#[test]
fn native_called_with_wrong_number_of_arguments() {
    assert_eq!(error_text("typeOf(1, 2);"), "[line 1] Error: Invalid argument count.");
}

#[test]
fn operands_must_be_numbers() {
    assert_eq!(error_text("\"a\" - 1;"), "[line 1] Error: Operand must be a number.");
    assert_eq!(
        error_text("\"a\" * 1;"),
        "[line 1] Error: Operands must be two numbers or two strings."
    );
    assert_eq!(error_text("-\"a\";"), "[line 1] Error: Operand must be a number.");
    assert_eq!(error_text("1 < \"a\";"), "[line 1] Error: Operand must be a number.");
}

#[test]
fn calling_a_number_is_an_undefined_function() {
    assert_eq!(error_text("var x = 1; x();"), "[line 1] Error: Undefined function.");
}

#[test]
fn method_call_on_a_number_is_an_invalid_call() {
    assert_eq!(error_text("var x = 1; x.f();"), "[line 1] Error: Invalid call.");
}

#[test]
fn reading_outside_an_array_is_an_invalid_get() {
    assert_eq!(error_text("var a = [1]; a[1];"), "[line 1] Error: Invalid get.");
    assert_eq!(error_text("var a = [1]; a[0 - 1];"), "[line 1] Error: Invalid get.");
    assert_eq!(error_text("var a = [1]; a[1] = 2;"), "[line 1] Error: Invalid set.");
}

#[test]
fn fractional_index_is_cut() {
    assert_eq!(output("var a = [1, 2]; print(a[1.5]); print(a[0.5]);"), vec!["2", "1"]);
}

#[test]
fn class_member_must_be_a_function() {
    assert_eq!(error_text("class C { var x = 1 }"), "[line 1] Error: Invalid class method.");
}

#[test]
fn import_of_a_number_is_invalid() {
    // built by hand: the parser only accepts a string behind `import`
    let tokenizer_line = 4;
    let program: &'static Vec<(Expr, usize)> = Box::leak(Box::new(vec![(
        Expr::Import(Box::new(Expr::Nil)),
        tokenizer_line,
    )]));
    let mut interpreter = Interpreter::new();
    interpreter.interpret(program);
    let result = loop {
        match interpreter.step() {
            Action::Finished(result) => break result,
            Action::Continue => {}
            Action::Host(_) => panic!("no request expected"),
        }
    };
    assert_eq!(
        result.err().map(|e| e.to_string()),
        Some(String::from("[line 4] Error: Invalid import module 'nil'"))
    );
}

#[test]
fn assert_native_compares_values() {
    assert_eq!(output("assert([1, 2], [1, 2]); print(\"same\");"), vec!["same"]);
    assert_eq!(error_text("assert([1, 2], [1, 3]);"), "Error: Assertion failed.");
}

#[test]
fn equality_of_values() {
    assert_eq!(value_text("[1, \"a\"] == [1, \"a\"]"), "true");
    assert_eq!(value_text("1 == \"1\""), "false");
    assert_eq!(value_text("nil != nil"), "false");
    assert_eq!(value_text("dict { \"a\": 1 } == dict { \"a\": 1 }"), "true");
    assert_eq!(value_text("dict { \"a\": 1 } == dict { \"a\": 1, \"b\": 2 }"), "false");
}

#[test]
fn instances_of_one_class_with_equal_fields_are_equal() {
    assert_eq!(
        value_text("class C { _construct(x){ this.x = x; } } var a = new C(1); var b = new C(1); var c = new C(2); [a == b, a == c]"),
        "[true, false]"
    );
}

#[test]
fn conversion_natives() {
    assert_eq!(
        output("print(toString([1, 2])); print(toBool(\"\")); print(toBool(3)); print(toNumber(true)); print(toNumber(\"2.50\")); print(typeOf(nil));"),
        vec!["1,2", "false", "true", "1", "2.5", "nil"]
    );
}

#[test]
fn length_concat_and_substring() {
    assert_eq!(
        output("print(len(\"héllo\")); print(len([1, 2, 3])); print(concat(\"ab\", \"cd\")); print(concat([1], [2])); print(substring(\"hello\", 1, 3));"),
        vec!["5", "3", "abcd", "[1, 2]", "el"]
    );
    assert_eq!(error_text("substring(\"abc\", 2, 1);"), "[line 0] Error: Invalid argument type.");
}

#[test]
fn math_natives_ask_the_host() {
    assert_eq!(output("print(sqrt(9)); print(pow(2, 10)); print(floor(2.7)); print(abs(0 - 3));"), vec!["3", "1024", "2", "3"]);
}

#[test]
fn negation_turns_the_sign() {
    assert_eq!(output("print(-3); print(-(0 - 3)); print(-0);"), vec!["-3", "3", "-0"]);
}

#[test]
fn printed_form_marks_callables() {
    assert_eq!(
        output("fun f(){ } class C { } print(f); print(C); print(print); print(new C());"),
        vec!["<fn f>", "<class C>", "<native fn print>", "<instance C>"]
    );
}

#[test]
fn unserved_request_fails_with_the_reply_of_the_host() {
    assert_eq!(error_text("readFile(\"x\");"), "IO Error: not served here");
    assert_eq!(error_text("readFile(1);"), "[line 0] Error: Invalid argument type.");
}

#[test]
fn reply_without_request_changes_nothing() {
    let program = parse_program("\"a\" == \"a\"");
    let mut interpreter = Interpreter::new();
    interpreter.interpret(program);
    interpreter.resume(HostReply::Value(Value::Boolean(false)));
    let result = loop {
        match interpreter.step() {
            Action::Finished(result) => break result,
            Action::Continue => {}
            Action::Host(_) => panic!("no request expected"),
        }
    };
    assert_eq!(result.ok().map(|v| v.to_string()), Some(String::from("true")));
}

#[test]
fn number_that_the_host_does_not_print_so_is_refused() {
    let program = parse_program("1");
    let mut interpreter = Interpreter::new();
    interpreter.interpret(program);
    let result = loop {
        match interpreter.step() {
            Action::Finished(result) => break result,
            Action::Continue => {}
            Action::Host(_) => {
                interpreter.resume(HostReply::Value(Value::Number(String::from("1.0"))));
            }
        }
    };
    assert_eq!(
        result.err().map(|e| e.to_string()),
        Some(String::from("UnknownError: UnknownError"))
    );
}

#[test]
fn host_cannot_raise_the_value_of_a_return() {
    let program = parse_program("fun f(){ print(1); return 2; } f()");
    let mut interpreter = Interpreter::new();
    interpreter.interpret(program);
    let mut first = true;
    let result = loop {
        match interpreter.step() {
            Action::Finished(result) => break result,
            Action::Continue => {}
            Action::Host(call) => {
                let reply = if call.service == Service::Print && first {
                    first = false;
                    HostReply::Failed(InterpreterError::RuntimeError(RuntimeErrorKind::Return(
                        Value::Number(String::from("9")),
                    )))
                } else {
                    serve(&call, &mut Vec::new())
                };
                interpreter.resume(reply);
            }
        }
    };
    assert_eq!(
        result.err().map(|e| e.to_string()),
        Some(String::from("UnknownError: UnknownError"))
    );
}

#[test]
fn rejected_task_surfaces_its_error_then_promise_rejected() {
    let program = parse_program("var p = delay(1); try { await p; } catch (e) { print(e); } await p;");
    let mut interpreter = Interpreter::new();
    interpreter.interpret(program);
    let mut printed = Vec::new();
    let result = loop {
        match interpreter.step() {
            Action::Finished(result) => break result,
            Action::Continue => {}
            Action::Host(call) => {
                let reply = match call.service {
                    Service::AwaitTask => HostReply::Failed(InterpreterError::RuntimeError(
                        RuntimeErrorKind::IoError(String::from("timer broke")),
                    )),
                    _ => serve(&call, &mut printed),
                };
                interpreter.resume(reply);
            }
        }
    };
    assert_eq!(printed, vec!["IO Error: timer broke"]);
    assert_eq!(
        result.err().map(|e| e.to_string()),
        Some(String::from("[line 1] Error: Promise rejected."))
    );
}

#[test]
fn class_without_constructor_has_its_methods() {
    assert_eq!(
        output("class C { hi(){ return 1; } } var o = new C(); print(o.hi()); print(typeOf(o));"),
        vec!["1", "instance"]
    );
}

#[test]
fn constructor_binds_as_many_arguments_as_it_is_given() {
    assert_eq!(
        output("class C { _construct(a, b){ this.a = a; } } var o = new C(5); print(o.a);"),
        vec!["5"]
    );
}

#[test]
fn methods_are_bound_after_the_constructor_has_run() {
    assert_eq!(
        error_text("class C { _construct(){ this.m(); } m(){ return 1; } } new C();"),
        "[line 1] Error: Undefined variable m."
    );
}

#[test]
fn method_sees_the_fields_of_its_instance_without_this() {
    assert_eq!(
        output("class C { _construct(x){ this.x = x; } get(){ return x; } } var o = new C(3); print(o.get());"),
        vec!["3"]
    );
}

#[test]
fn unknown_field_is_an_invalid_get() {
    assert_eq!(
        error_text("class C { } var o = new C(); o.nothing;"),
        "[line 1] Error: Invalid get."
    );
}

#[test]
fn function_sees_the_variables_of_its_caller() {
    assert_eq!(
        output("fun show(){ print(hidden); } fun caller(){ var hidden = 4; show(); } caller();"),
        vec!["4"]
    );
}

#[test]
fn function_body_without_return_gives_its_last_value() {
    assert_eq!(output("fun f(a){ a + 1 } print(f(2));"), vec!["3"]);
    assert_eq!(output("fun g(){ } print(g());"), vec!["nil"]);
}

#[test]
fn later_dictionary_entry_of_a_name_replaces_the_earlier_one() {
    assert_eq!(
        output("var d = dict { \"a\": 1, \"b\": 2, \"a\": 3 }; print(d); print(len(d));"),
        vec!["{a: 3, b: 2}", "2"]
    );
}

#[test]
fn comparisons_and_not() {
    assert_eq!(
        output("print(1 < 2); print(2 <= 2); print(3 > 4); print(4 >= 5); print(!nil); print(!1); print(\"a\" == \"a\"); print(\"a\" != \"b\");"),
        vec!["true", "true", "false", "false", "true", "false", "true", "true"]
    );
}

#[test]
fn remainder_and_division() {
    assert_eq!(output("print(7 % 3); print(7 / 2); print(0.1 + 0.2);"), vec!["1", "3.5", "0.30000000000000004"]);
    assert_eq!(error_text("1 / (2 - 2);"), "[line 1] Error: Division by zero.");
}

#[test]
fn promise_is_a_value_until_it_is_awaited() {
    assert_eq!(
        output("var p = delay(1); print(p); print(typeOf(p)); print(await p);"),
        vec!["promise", "promise", "nil"]
    );
}

#[test]
fn async_function_called_with_wrong_number_of_arguments_fails_when_awaited() {
    assert_eq!(
        error_text("async fun g(a){ return a; } var p = g(); print(\"made\"); await p;"),
        "[line 1] Error: Expected 1 arguments but got 0"
    );
}

#[test]
fn error_inside_async_function_rejects_its_promise() {
    assert_eq!(
        output("async fun g(){ return 1 / 0; } var p = g(); try { await p; } catch (e) { print(e); } try { await p; } catch (e) { print(e); }"),
        vec!["[line 1] Error: Division by zero.", "[line 1] Error: Promise rejected."]
    );
}

#[test]
fn conversion_of_text_that_is_no_number_fails() {
    assert_eq!(
        error_text("toNumber(\"abc\");"),
        "[line 0] Error: Could not convert string to number"
    );
    assert_eq!(error_text("toNumber(nil);"), "[line 0] Error: Invalid argument type.");
}

#[test]
fn statement_lines_are_used_for_errors() {
    assert_eq!(error_text("var a = 1;\nvar b = 2;\n\nprint(c);\n"), "[line 4] Error: Undefined variable c.");
}

#[test]
fn invalid_operators_in_hand_built_trees() {
    let operator = Token {
        token_type: TokenType::Comma,
        lexeme: String::from(","),
        literal: None,
        line: 9,
    };
    let operand = || {
        Box::new(Expr::Literal(
            Token { token_type: TokenType::Nil, lexeme: String::from("nil"), literal: None, line: 9 },
            String::from("nil"),
        ))
    };
    let run_one = |expr: Expr| {
        let program: &'static Vec<(Expr, usize)> = Box::leak(Box::new(vec![(expr, 2)]));
        let mut interpreter = Interpreter::new();
        interpreter.interpret(program);
        loop {
            match interpreter.step() {
                Action::Finished(result) => break result.err().map(|e| e.to_string()),
                Action::Continue => {}
                Action::Host(_) => panic!("no request expected"),
            }
        }
    };
    let copy = |t: &Token| t.clone();
    assert_eq!(
        run_one(Expr::Binary(operand(), copy(&operator), operand())),
        Some(String::from("[line 9] Error: Invalid binary operator."))
    );
    assert_eq!(
        run_one(Expr::Unary(copy(&operator), operand())),
        Some(String::from("[line 9] Error: Invalid unary operator."))
    );
    assert_eq!(
        run_one(Expr::Logical(operand(), copy(&operator), operand())),
        Some(String::from("[line 9] Error: Invalid logical operator."))
    );
    assert_eq!(
        run_one(Expr::Literal(copy(&operator), String::from(","))),
        Some(String::from("[line 9] Error: Invalid literal."))
    );
}

#[test]
fn one_expression_can_be_evaluated_alone() {
    let program = parse_program("\"x\" + \"y\"");
    let mut interpreter = Interpreter::new();
    interpreter.evaluate(&program[0].0);
    let result = loop {
        match interpreter.step() {
            Action::Finished(result) => break result,
            Action::Continue => {}
            Action::Host(_) => panic!("no request expected"),
        }
    };
    assert_eq!(result.ok().map(|v| v.to_string()), Some(String::from("xy")));
    assert_eq!(interpreter.current(), 0);
    assert_eq!(interpreter.environment().len(), 1);
}
