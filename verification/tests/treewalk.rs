use pitlang::errors::{ErrorKind, EvalError};
use pitlang::host::{Arith, HostRequest, HostResponse, Piece, Rounding};
use pitlang::number::Number;
use pitlang::parser::parse;
use pitlang::signal::Signal;
use pitlang::tokenizer::tokenize;
use pitlang::value::Value;
use pitlang::treewalk::evaluator::{evaluate, TreeWalk};

struct Host {
    out: String,
    lines: Vec<String>,
    files: Vec<(String, String)>,
    requests: usize,
}

fn num(x: f64) -> Number {
    Number::new(x.to_bits())
}

fn val(n: Number) -> f64 {
    f64::from_bits(n.bits)
}

impl Host {
    fn new() -> Host {
        Host { out: String::new(), lines: vec![], files: vec![], requests: 0 }
    }

    fn perform(&mut self, request: HostRequest) -> HostResponse {
        self.requests += 1;
        match request {
            HostRequest::Binary { op, left, right } => {
                let (a, b) = (val(left), val(right));
                HostResponse::Number(num(match op {
                    Arith::Add => a + b,
                    Arith::Sub => a - b,
                    Arith::Mul => a * b,
                    Arith::Div => a / b,
                    Arith::Rem => a % b,
                }))
            }
            HostRequest::Unary { op, operand } => {
                let a = val(operand);
                HostResponse::Number(num(match op {
                    Rounding::Round => a.round(),
                    Rounding::Floor => a.floor(),
                    Rounding::Ceil => a.ceil(),
                }))
            }
            HostRequest::Parse { text } => match text.parse::<f64>() {
                Ok(x) => HostResponse::Number(num(x)),
                Err(_) => HostResponse::Nothing,
            },
            HostRequest::Format { number } => HostResponse::Text(format!("{}", val(number))),
            HostRequest::Write { pieces, newline } => {
                for p in pieces {
                    match p {
                        Piece::Text(s) => self.out.push_str(&s),
                        Piece::Number(n) => self.out.push_str(&format!("{}", val(n))),
                    }
                }
                if newline {
                    self.out.push('\n');
                }
                HostResponse::Nothing
            }
            HostRequest::Time => HostResponse::Number(num(1700000000.5)),
            HostRequest::Random => HostResponse::Number(num(0.25)),
            HostRequest::Argv => HostResponse::Texts(vec!["prog".to_string(), "a.pit".to_string()]),
            HostRequest::ReadLine => {
                if self.lines.is_empty() {
                    HostResponse::Nothing
                } else {
                    HostResponse::Text(self.lines.remove(0))
                }
            }
            HostRequest::ReadFile { path } => match self.files.iter().find(|f| f.0 == path) {
                Some(f) => HostResponse::Text(f.1.clone()),
                None => HostResponse::Nothing,
            },
            HostRequest::WriteFile { path, contents } => {
                self.files.push((path, contents));
                HostResponse::Nothing
            }
        }
    }
}

fn drive(vm: &mut TreeWalk, host: &mut Host) -> Signal {
    loop {
        match vm.evaluate_program(100_000) {
            Signal::Request(r) => {
                let answer = host.perform(r);
                if let Some(s) = vm.resume(answer) {
                    return s;
                }
            }
            other => return other,
        }
    }
}

fn run_with(src: &str, host: &mut Host) -> Signal {
    let tokens = tokenize(src.to_string()).unwrap();
    let ast = parse(&tokens).unwrap();
    let mut vm = TreeWalk::new(&ast);
    drive(&mut vm, host)
}

fn run(src: &str) -> (String, Signal) {
    let mut host = Host::new();
    let s = run_with(src, &mut host);
    (host.out, s)
}

fn output(src: &str) -> String {
    let (out, s) = run(src);
    assert!(matches!(s, Signal::Done(_)), "{:?}", s);
    out
}

fn error(src: &str) -> EvalError {
    match run(src).1 {
        Signal::Failed(e) => e,
        other => panic!("no error: {:?}", other),
    }
}

#[test]
fn walk_prints_a_sum_of_products() {
    assert_eq!(output("std.println(1 + 2 * 3);"), "7\n");
}

#[test]
fn walk_calls_a_function() {
    assert_eq!(output("fn sq(x) { return x * x; } std.println(sq(5));"), "25\n");
}

#[test]
fn walk_pushes_to_an_array() {
    assert_eq!(output("let a = [1,2,3]; a.push(4); std.println(a.length());"), "4\n");
}

#[test]
fn walk_closures_keep_their_scope() {
    assert_eq!(
        output(
            "fn mk() { let c = 0; return fn() { c = c + 1; return c; }; } let f = mk(); f(); f(); std.println(f());"
        ),
        "3\n"
    );
}

#[test]
fn walk_sets_a_property() {
    assert_eq!(output("let o = {x: 1}; o.x = o.x + 41; std.println(o.x);"), "42\n");
}

#[test]
fn walk_loops_while_the_condition_holds() {
    assert_eq!(
        output("let i = 0; while (i < 3) { std.print(i); i = i + 1; } std.println(\"\");"),
        "012\n"
    );
}

#[test]
fn walk_arrays_are_shared_between_their_holders() {
    assert_eq!(output("let a = [1]; let b = a; b.push(2); std.println(a.length());"), "2\n");
}

#[test]
fn walk_later_assignments_are_seen_through_a_closure() {
    assert_eq!(
        output("let x = 1; fn get() { return x; } x = 5; std.println(get());"),
        "5\n"
    );
}

#[test]
fn walk_short_circuit_skips_the_right_side() {
    assert_eq!(
        output(
            "fn f() { std.print(\"called\"); return true; } std.println(false && f()); std.println(true || f()); std.println(true && f()); std.println(false || f());"
        ),
        "false\ntrue\ncalledtrue\ncalledtrue\n"
    );
}

#[test]
fn walk_if_takes_the_branch_of_the_boolean() {
    assert_eq!(
        output("if (1 < 2) { std.print(\"a\"); } else { std.print(\"b\"); } if (2 < 1) std.print(\"c\"); else std.print(\"d\");"),
        "ad"
    );
    assert_eq!(error("if (1) { std.print(\"a\"); }").kind(), ErrorKind::Type);
}

#[test]
fn walk_for_runs_the_step_after_the_body() {
    assert_eq!(output("for let i = 0; i < 3; i = i + 1 { std.print(i); }"), "012");
}

#[test]
fn walk_arithmetic_is_that_of_doubles() {
    assert_eq!(output("std.println(7 - 10); std.println(7 / 2); std.println(7 % 4); std.println(0.1 + 0.2);"), "-3\n3.5\n3\n0.30000000000000004\n");
    assert_eq!(output("std.println(1 / 0); std.println(-1 / 0); std.println(-(3));"), "inf\n-inf\n-3\n");
    assert_eq!(output("std.println(\"ab\" + \"cd\");"), "abcd\n");
    assert_eq!(output("std.println(6 & 3); std.println(6 | 3);"), "2\n7\n");
}

#[test]
fn walk_type_errors_are_fatal() {
    assert_eq!(error("1 + \"a\";").kind(), ErrorKind::Type);
    assert_eq!(error("\"a\" - \"b\";").kind(), ErrorKind::Type);
    assert_eq!(error("1 < \"a\";").kind(), ErrorKind::Type);
    assert_eq!(error("-\"a\";").kind(), ErrorKind::Type);
    assert_eq!(error("!1;").kind(), ErrorKind::Type);
    assert_eq!(error("let x = 1; x();").kind(), ErrorKind::Type);
    assert_eq!(error("let x = 1; x.y = 2;").kind(), ErrorKind::Type);
    assert_eq!(error("null.length();").kind(), ErrorKind::Type);
    assert_eq!(error("\"a\".nothing();").kind(), ErrorKind::Type);
}

#[test]
fn walk_name_errors_are_fatal() {
    assert_eq!(error("x;"), EvalError::UndefinedVariable("x".to_string()));
    assert_eq!(error("x = 1;"), EvalError::UndefinedVariable("x".to_string()));
    assert_eq!(error("let o = {a: 1}; o.b;"), EvalError::UndefinedVariable("b".to_string()));
    assert_eq!(error("x;").message(), "Undefined variable: x");
}

#[test]
fn walk_argument_errors_are_fatal() {
    assert_eq!(
        error("fn f(a) { return a; } f(1, 2);"),
        EvalError::ArgumentError("Argument count mismatch".to_string())
    );
    assert_eq!(error("fn f(a) { return a; } f();").kind(), ErrorKind::Argument);
}

#[test]
fn walk_value_errors_are_fatal() {
    assert_eq!(error("[1, 2].get(2);").kind(), ErrorKind::Value);
    assert_eq!(error("[].pop();").kind(), ErrorKind::Value);
    assert_eq!(error("[1].set(1, 0);").kind(), ErrorKind::Value);
    assert_eq!(error("[1].remove(3);").kind(), ErrorKind::Value);
    assert_eq!(error("\"abc\".get(3);").kind(), ErrorKind::Value);
    assert_eq!(error("\"ab\".ord();").kind(), ErrorKind::Value);
    assert_eq!(error("\"x1\".to_int();").kind(), ErrorKind::Value);
}

#[test]
fn walk_blocks_have_scopes_of_their_own() {
    assert_eq!(output("let x = 1; { let x = 2; std.print(x); } std.print(x);"), "21");
    assert_eq!(output("let x = 1; { x = 2; } std.print(x);"), "2");
    assert_eq!(error("{ let y = 1; } y;"), EvalError::UndefinedVariable("y".to_string()));
}

#[test]
fn walk_values_print_as_the_language_writes_them() {
    assert_eq!(
        output("std.println(1.5, true, false, null, \"s\", [1, \"a\", [2]], {b: 1, a: [true]}, fn() {}, std.print);"),
        "1.5truefalsenulls[1, a, [2]]{b: 1, a: [true]}FunctionFunction\n"
    );
    assert_eq!(output("let a = [1]; a.push(a); std.println(a);"), "[1, [...]]\n");
    assert_eq!(output("let o = {}; o.me = o; std.println(o);"), "{me: {...}}\n");
    assert_eq!(output("let o = {a: 1, b: 2, a: 3}; std.println(o);"), "{a: 3, b: 2}\n");
}

#[test]
fn walk_string_methods() {
    assert_eq!(output("std.println(\"héllo\".length());"), "5\n");
    assert_eq!(output("std.println(\"A\".ord());"), "65\n");
    assert_eq!(output("std.println(\"héllo\".get(1), \"héllo\".get(-1));"), "éo\n");
    assert_eq!(output("std.println(\"12.5\".to_int() + 1, \" \", \"3\".to_float());"), "13.5 3\n");
    assert_eq!(output("std.println(\"a-b-c\".replace(\"-\", \"+\", \"a\", \"A\"));"), "A+b+c\n");
    assert_eq!(output("std.println(\"a b  c\".split());"), "[a, b, , c]\n");
    assert_eq!(output("std.println(\"a,b\".split(\",\").length());"), "2\n");
    assert_eq!(output("std.println(\"hello\".find(\"ll\"), \"hello\".find(\"z\"));"), "2-1\n");
}

#[test]
fn walk_number_methods() {
    assert_eq!(output("std.println(2.5.to_string() + \"!\");"), "2.5!\n");
    assert_eq!(output("std.println(2.5.round(), 2.5.floor(), 2.5.ceil());"), "323\n");
}

#[test]
fn walk_array_methods() {
    assert_eq!(
        output("let a = [1, 2, 3]; std.println(a.get(0), a.get(-1), a.pop(), a.length(), a.remove(0), a, a.find(2), a.find(9)); a.set(0, 7); std.println(a);"),
        "13321[2]0-1\n[7]\n"
    );
}

#[test]
fn walk_host_functions() {
    let mut host = Host::new();
    host.lines.push("first\n".to_string());
    let s = run_with(
        "std.print(std.get_line(), std.get_line(), std.time(), std.random(), std.argv()); std.write_file(\"f\", \"text\"); std.print(std.read_file(\"f\"), std.read_file(\"g\"));",
        &mut host,
    );
    assert!(matches!(s, Signal::Done(_)));
    assert_eq!(host.out, "first\nnull1700000000.50.25[prog, a.pit]textnull");
    assert_eq!(host.files, vec![("f".to_string(), "text".to_string())]);
}

#[test]
fn walk_exit_ends_the_program_with_its_code() {
    assert_eq!(run("std.print(1); std.exit(3); std.print(2);"), ("1".to_string(), Signal::Exit(3)));
    assert_eq!(run("std.exit(1000000000000);").1, Signal::Exit(i32::MAX));
    assert_eq!(error("std.exit(\"x\");").kind(), ErrorKind::Type);
}

#[test]
fn walk_return_at_the_top_ends_the_program() {
    assert_eq!(run("std.print(1); return 5; std.print(2);"), ("1".to_string(), Signal::Done(Value::Number(num(5.0)))));
    assert_eq!(run("").1, Signal::Done(Value::Null));
    assert_eq!(run("1; 2; \"end\";").1, Signal::Done(Value::String("end".to_string())));
}

#[test]
fn walk_return_inside_a_loop_leaves_the_stack_clean() {
    assert_eq!(
        output("fn f() { let i = 0; while (true) { i = i + 1; if (i == 3) { return i; } } } std.println(2 + f());"),
        "5\n"
    );
}

#[test]
fn walk_recursion_goes_as_deep_as_the_program_asks() {
    assert_eq!(
        output("fn fib(n) { if (n < 2) { return n; } return fib(n - 1) + fib(n - 2); } std.println(fib(15));"),
        "610\n"
    );
}

#[test]
fn walk_equality_is_by_value_for_plain_values_and_by_identity_for_shared_ones() {
    assert_eq!(
        output("let a = [1]; let b = [1]; let c = a; std.println(1 == 1, 1 == 2, \"a\" == \"a\", null == null, 1 == \"1\", a == b, a == c, a != b);"),
        "truefalsetruetruefalsefalsetruetrue\n"
    );
}

#[test]
fn walk_pauses_when_the_fuel_is_spent_and_goes_on_after() {
    let tokens = tokenize("let i = 0; while (true) { i = i + 1; }".to_string()).unwrap();
    let ast = parse(&tokens).unwrap();
    let mut vm = TreeWalk::new(&ast);
    let mut host = Host::new();
    let mut paused = 0;
    for _ in 0..50 {
        match vm.evaluate_program(1) {
            Signal::Paused => paused += 1,
            Signal::Request(r) => {
                let a = host.perform(r);
                assert_eq!(vm.resume(a), None);
            }
            other => panic!("{:?}", other),
        }
    }
    assert!(paused > 0);
    assert!(host.requests > 0);
}

#[test]
fn walk_does_not_step_while_it_waits_and_fails_on_a_wrong_answer() {
    let tokens = tokenize("1 + 2;".to_string()).unwrap();
    let ast = parse(&tokens).unwrap();
    let mut vm = TreeWalk::new(&ast);
    assert_eq!(vm.evaluate_program(10), Signal::Request(HostRequest::Parse { text: "1".to_string() }));
    assert!(matches!(vm.step(), Some(Signal::Failed(EvalError::Runtime(_)))));
    assert_eq!(vm.resume(HostResponse::Number(num(1.0))), None);
    assert_eq!(vm.evaluate_program(10), Signal::Request(HostRequest::Parse { text: "2".to_string() }));
    assert_eq!(vm.resume(HostResponse::Number(num(2.0))), None);
    assert_eq!(
        vm.evaluate_program(10),
        Signal::Request(HostRequest::Binary { op: Arith::Add, left: num(1.0), right: num(2.0) })
    );
    assert!(matches!(
        vm.resume(HostResponse::Text("3".to_string())),
        Some(Signal::Failed(EvalError::Runtime(_)))
    ));
    assert!(matches!(vm.resume(HostResponse::Nothing), Some(Signal::Failed(EvalError::Runtime(_)))));
}

#[test]
fn walk_the_sum_is_what_the_host_answers() {
    let tokens = tokenize("let a = 1; a + a;".to_string()).unwrap();
    let ast = parse(&tokens).unwrap();
    let mut vm = TreeWalk::new(&ast);
    assert!(matches!(vm.evaluate_program(100), Signal::Request(HostRequest::Parse { .. })));
    assert_eq!(vm.resume(HostResponse::Number(num(1.0))), None);
    assert_eq!(
        vm.evaluate_program(100),
        Signal::Request(HostRequest::Binary { op: Arith::Add, left: num(1.0), right: num(1.0) })
    );
    assert_eq!(vm.resume(HostResponse::Number(num(42.0))), None);
    assert_eq!(vm.evaluate_program(100), Signal::Done(Value::Number(num(42.0))));
}

#[test]
fn walk_evaluate_starts_and_runs_to_the_first_stop() {
    let tokens = tokenize("\"a\" + \"b\";".to_string()).unwrap();
    let ast = parse(&tokens).unwrap();
    let (mut walk, signal) = evaluate(&ast, 100);
    assert_eq!(signal, Signal::Done(Value::String("ab".to_string())));
    assert_eq!(walk.step(), Some(Signal::Done(Value::String("ab".to_string()))));
    let (_, paused) = evaluate(&ast, 2);
    assert_eq!(paused, Signal::Paused);
}

#[test]
fn walk_unknown_operators_fail_when_they_are_reached() {
    assert!(matches!(error("1 ^ 2;"), EvalError::Runtime(_)));
    assert!(matches!(error("++1;"), EvalError::Runtime(_)));
    assert_eq!(output("if (false) { 1 ^ 2; } std.print(1);"), "1");
}

#[test]
fn walk_conditions_count_as_true_by_their_value() {
    assert_eq!(output("let n = 3; while (n) { std.print(n); n = n - 1; }"), "321");
    assert_eq!(output("let s = \"ab\"; while (s) { std.print(s); s = \"\"; }"), "ab");
    assert_eq!(output("while (null) { std.print(1); } std.print(2);"), "2");
    assert_eq!(output("while (0) { std.print(1); } std.print(2);"), "2");
    assert_eq!(output("let a = []; let n = 0; while (a && n < 2) { n = n + 1; } std.print(n);"), "2");
    assert_eq!(output("std.print(1 && \"x\", 0 || \"\", null || {}, \"\" && 1);"), "truefalsetruefalse");
    assert_eq!(output("if (true) std.print(1); else std.print(2);"), "1");
    assert_eq!(output("if (false) std.print(1); else std.print(2);"), "2");
    assert_eq!(error("if (1) std.print(1);").message(), "Type error: Condition must be a boolean");
}
