use pitlang::errors::ErrorKind;
use pitlang::host::{Arith, HostRequest, HostResponse, Piece, Rounding};
use pitlang::number::Number;
use pitlang::parser::parse;
use pitlang::signal::Signal;
use pitlang::tokenizer::tokenize;
use pitlang::treewalk::evaluator::TreeWalk;
use pitlang::virtual_machine::codegen::generate_bytecode;
use pitlang::virtual_machine::interpreter::Interpreter;

struct Host {
    out: String,
    lines: Vec<String>,
    files: Vec<(String, String)>,
    requests: usize,
}

fn num(x: f64) -> Number {
    Number::new(x.to_bits())
}

fn val(n: Number) -> f64 {
    f64::from_bits(n.bits)
}

impl Host {
    fn new() -> Host {
        Host { out: String::new(), lines: vec![], files: vec![], requests: 0 }
    }

    fn perform(&mut self, request: HostRequest) -> HostResponse {
        self.requests += 1;
        match request {
            HostRequest::Binary { op, left, right } => {
                let (a, b) = (val(left), val(right));
                HostResponse::Number(num(match op {
                    Arith::Add => a + b,
                    Arith::Sub => a - b,
                    Arith::Mul => a * b,
                    Arith::Div => a / b,
                    Arith::Rem => a % b,
                }))
            }
            HostRequest::Unary { op, operand } => {
                let a = val(operand);
                HostResponse::Number(num(match op {
                    Rounding::Round => a.round(),
                    Rounding::Floor => a.floor(),
                    Rounding::Ceil => a.ceil(),
                }))
            }
            HostRequest::Parse { text } => match text.parse::<f64>() {
                Ok(x) => HostResponse::Number(num(x)),
                Err(_) => HostResponse::Nothing,
            },
            HostRequest::Format { number } => HostResponse::Text(format!("{}", val(number))),
            HostRequest::Write { pieces, newline } => {
                for p in pieces {
                    match p {
                        Piece::Text(s) => self.out.push_str(&s),
                        Piece::Number(n) => self.out.push_str(&format!("{}", val(n))),
                    }
                }
                if newline {
                    self.out.push('\n');
                }
                HostResponse::Nothing
            }
            HostRequest::Time => HostResponse::Number(num(1700000000.5)),
            HostRequest::Random => HostResponse::Number(num(0.25)),
            HostRequest::Argv => HostResponse::Texts(vec!["prog".to_string(), "a.pit".to_string()]),
            HostRequest::ReadLine => {
                if self.lines.is_empty() {
                    HostResponse::Nothing
                } else {
                    HostResponse::Text(self.lines.remove(0))
                }
            }
            HostRequest::ReadFile { path } => match self.files.iter().find(|f| f.0 == path) {
                Some(f) => HostResponse::Text(f.1.clone()),
                None => HostResponse::Nothing,
            },
            HostRequest::WriteFile { path, contents } => {
                self.files.push((path, contents));
                HostResponse::Nothing
            }
        }
    }
}

fn kind_of(s: &Signal) -> String {
    match s {
        Signal::Done(_) => "done".to_string(),
        Signal::Failed(e) => {
            let k: ErrorKind = e.kind();
            format!("failed {:?}", k)
        }
        Signal::Exit(c) => format!("exit {}", c),
        Signal::Request(_) => "request".to_string(),
        Signal::Paused => "paused".to_string(),
    }
}

fn by_walk(src: &str) -> (String, String) {
    let tokens = tokenize(src.to_string()).unwrap();
    let ast = parse(&tokens).unwrap();
    let mut host = Host::new();
    host.lines = vec!["one\n".to_string(), "two\n".to_string()];
    let mut walk = TreeWalk::new(&ast);
    let end = loop {
        match walk.evaluate_program(50_000) {
            Signal::Request(r) => {
                let a = host.perform(r);
                if let Some(s) = walk.resume(a) {
                    break s;
                }
            }
            other => break other,
        }
    };
    (host.out, kind_of(&end))
}

fn by_vm(src: &str) -> (String, String) {
    let tokens = tokenize(src.to_string()).unwrap();
    let ast = parse(&tokens).unwrap();
    let mut host = Host::new();
    host.lines = vec!["one\n".to_string(), "two\n".to_string()];
    let mut vm = Interpreter::new(generate_bytecode(&ast));
    let end = loop {
        match vm.run(50_000) {
            Signal::Request(r) => {
                let a = host.perform(r);
                if let Some(s) = vm.resume(a) {
                    break s;
                }
            }
            other => break other,
        }
    };
    (host.out, kind_of(&end))
}

fn agree(src: &str) {
    assert_eq!(by_walk(src), by_vm(src), "{}", src);
}

#[test]
fn both_backends_print_the_same_for_the_scenarios() {
    for src in [
        "std.println(1 + 2 * 3);",
        "fn sq(x) { return x * x; } std.println(sq(5));",
        "let a = [1,2,3]; a.push(4); std.println(a.length());",
        "fn mk() { let c = 0; return fn() { c = c + 1; return c; }; } let f = mk(); f(); f(); std.println(f());",
        "let o = {x: 1}; o.x = o.x + 41; std.println(o.x);",
        "let i = 0; while (i < 3) { std.print(i); i = i + 1; } std.println(\"\");",
        "let a = [1]; let b = a; b.push(2); std.println(a.length());",
    ] {
        agree(src);
        assert_eq!(by_walk(src).1, "done");
    }
}

#[test]
fn both_backends_agree_on_control_flow() {
    for src in [
        "if (true) std.print(1); else std.print(2);",
        "if (false) std.print(1); else std.print(2);",
        "if (false) std.print(1); std.print(3);",
        "if (1) std.print(1);",
        "if (null) std.print(1); else std.print(2);",
        "let i = 0; while (i < 5) { if (i == 3) { std.print(\"x\"); } else { std.print(i); } i = i + 1; }",
        "let n = 3; while (n) { std.print(n); n = n - 1; }",
        "while (\"\") { std.print(1); }",
        "for let i = 0; i < 4; i = i + 1 { std.print(i * i, \" \"); }",
        "for let i = 0; i < 3; i = i + 1 for let j = 0; j < 2; j = j + 1 std.print(i, j, \";\");",
        "fn f(n) { while (true) { if (n > 3) { return n; } n = n + 1; } } std.print(1 + f(0) + f(10));",
        "fn f() { for let i = 0; true; i = i + 1 { if (i == 2) { return i; } } } std.print([f(), f()]);",
        "fn f() { { { return 1; } } } std.print(f());",
        "fn f() { } std.print(f());",
        "fn f() { 5; } std.print(f());",
        "std.print(1); return 2; std.print(3);",
        "fn fact(n) { if (n < 2) { return 1; } return n * fact(n - 1); } std.print(fact(10));",
        "fn even(n) { if (n == 0) { return true; } return odd(n - 1); } fn odd(n) { if (n == 0) { return false; } return even(n - 1); } std.print(even(10), odd(7), even(3));",
    ] {
        agree(src);
    }
}

#[test]
fn both_backends_agree_on_operators() {
    for src in [
        "std.print(1 + 2, 1 - 2, 2 * 3, 7 / 2, 7 % 3, -4, 1 / 0, 0 / 0);",
        "std.print(1 < 2, 2 < 1, 1 <= 1, 1 >= 2, 2 > 1, 1 == 1, 1 != 1);",
        "std.print(\"a\" + \"b\", \"a\" == \"a\", \"a\" != \"b\");",
        "std.print(12 & 10, 12 | 10, 3.9 & 7.2, -1 | 0);",
        "std.print(true && false, true && 1, 0 || \"\", null || [], !true, !false);",
        "fn f() { std.print(\"f\"); return true; } std.print(false && f(), true || f(), true && f(), false || f());",
        "1 + true;", "\"a\" * 2;", "null < 1;", "-null;", "!0;", "1 ^ 2;", "++1;", "1 ++ 2;",
        "[1] + [2];", "\"a\" < \"b\";", "1 & \"a\";",
        "let a = 1; let b = a = 5; std.print(a, b);",
        "let o = {}; let v = o.x = 5; std.print(v, o);",
        "1 = 2;".replace("1 = 2;", "let q = 1; q = q + 1; std.print(q);").as_str(),
    ] {
        agree(src);
    }
}

#[test]
fn both_backends_agree_on_scopes_and_closures() {
    for src in [
        "let x = 1; { let x = 2; std.print(x); { x = 3; } std.print(x); } std.print(x);",
        "let x = 1; fn f() { x = x + 1; return x; } f(); f(); std.print(x);",
        "let x = 1; fn f() { let x = 10; return x; } std.print(f(), x);",
        "fn counter() { let n = 0; return {inc: fn() { n = n + 1; return n; }, get: fn() { return n; }}; } let c = counter(); let d = counter(); c.inc(); c.inc(); d.inc(); std.print(c.get(), d.get());",
        "fn outer(a) { return fn(b) { return fn(c) { return a + b + c; }; }; } std.print(outer(1)(2)(3));",
        "let fs = []; for let i = 0; i < 3; i = i + 1 { fs.push(fn() { return i; }); } std.print(fs.get(0)(), fs.get(2)());",
        "let fs = []; let i = 0; while (i < 3) { let j = i; fs.push(fn() { return j; }); i = i + 1; } std.print(fs.get(0)(), fs.get(1)(), fs.get(2)());",
        "y;", "y = 1;", "{ let z = 1; } z;", "fn f(a) { return a; } f();", "fn f() { return 1; } f(2);",
        "fn f(a, a) { return a; } std.print(f(1, 2));",
        "let f = 5; f();", "null();", "\"s\"();",
        "fn f() { return g(); } fn g() { return 7; } std.print(f());",
    ] {
        agree(src);
    }
}

#[test]
fn both_backends_agree_on_values_and_methods() {
    for src in [
        "std.println([1, [2, [3, []]], {a: {b: [null, true]}}, \"s\", 1.25, fn() {}, std.time]);",
        "let a = []; a.push(a); let o = {}; o.o = o; o.a = a; std.println(a, o);",
        "let o = {a: 1, b: 2, a: 3}; o.c = 4; o.b = 5; std.println(o, o.a, o.b, o.c);",
        "let o = {}; o.x;", "let o = {}; o.x.y;", "let n = null; n.x = 1;", "let s = \"a\"; s.x = 1;",
        "std.print(\"héllo wörld\".length(), \"héllo\".get(1), \"héllo\".get(-5), \"a\".ord(), \"é\".ord());",
        "std.print(\"a,b,,c\".split(\",\"), \"abc\".split(\"\"), \"a b\".split(), \"\".split(\",\"));",
        "std.print(\"aaa\".replace(\"aa\", \"b\"), \"abc\".replace(\"\", \"-\"), \"abc\".replace(), \"abcabc\".replace(\"b\", \"\", \"c\", \"cc\"));",
        "std.print(\"hello\".find(\"l\"), \"hello\".find(\"\"), \"hello\".find(\"lo\"), \"hello\".find(\"hello!\"));",
        "std.print(\"42\".to_int() + 1, \"4.5\".to_float() * 2);", "\"4x\".to_int();", "\"\".to_float();",
        "\"abc\".get(5);", "\"abc\".get(-4);", "\"abc\".get(\"1\");", "\"abc\".get();", "\"abc\".length(1);", "\"abc\".replace(\"a\");", "\"abc\".replace(\"a\", 1);", "\"abc\".split(1);", "\"abc\".find(1);", "\"\".ord();", "\"abc\".nope();",
        "std.print(1.5.to_string() + \"x\", 1.5.round(), 1.5.floor(), 1.5.ceil(), (0 - 1.5).round());", "1.5.round(1);", "1.5.nope();",
        "let a = [3, 1, 2]; std.print(a.length(), a.get(0), a.get(-1), a.get(-3), a.find(1), a.find(\"1\"), a.pop(), a.remove(0), a); a.set(0, 9); a.set(-5, 8); std.print(a);",
        "[].pop();", "[1].get(1);", "[1].get(-2);", "[1].set(1, 1);", "[1].remove(1);", "[1].get(null);", "[1].set(\"0\", 1);", "[1].push();", "[1].push(1, 2);", "[1].nope();", "[].length(0);",
        "let a = [1, 2, 3]; let b = a; b.remove(0); b.set(0, a); std.print(a.length(), b == a, a.get(0) == b);",
        "std.print(true.x);", "true.x();", "let f = [1].length; std.print(f());",
        "std.print(std.get_line(), std.get_line(), std.get_line(), std.time(), std.random(), std.argv(), std.argv().length());",
        "std.write_file(\"a\", \"b\"); std.print(std.read_file(\"a\"), std.read_file(\"c\"));", "std.read_file();", "std.read_file(1);", "std.write_file(\"a\");", "std.write_file(1, 2);",
        "std.print(1); std.exit(7); std.print(2);", "std.exit();", "std.exit(0 - 1);", "std.nothing();", "std.print = 5; std.print(1);",
    ] {
        agree(src);
    }
}

#[test]
fn both_backends_agree_on_the_values_of_stores_and_tests() {
    for src in [
        "let x = 1; std.print(x = 5, x);",
        "let x = 1; let y = 2; x = y = 7; std.print(x, y);",
        "let o = {a: 1, b: {c: 2}}; std.print(o.a = 3, o, o.b.c = 4, o.b);",
        "fn f() { return 1; } let g = fn () { return 2; }; std.print(g, f(), g());",
        "fn f() { let x = 1; } std.print(f());",
        "fn f() { if (true) { let y = 2; } } std.print(f());",
        "fn f() { fn g() {} } std.print(f());",
        "if (1) std.print(1); else std.print(2);",
        "if (\"\") std.print(1);",
        "if (null) std.print(1);",
        "fn f(c) { if (c) { return 1; } return 2; } std.print(f(true), f(false)); f(0);",
        "let n = 2; while (n) { if (n == 1) std.print(\"one\"); else std.print(\"more\"); n = n - 1; }",
        "let o = {}; o.k = o; std.print(o.k.k == o);",
        "nope = 1;",
        "let o = 1; o.x = 2;",
    ] {
        agree(src);
    }
    assert_eq!(by_vm("let x = 1; std.print(x = 5, x);").0, "55");
    assert_eq!(by_vm("let o = {a: 1}; std.print(o.a = 3, o);").0, "null{a: 3}");
    assert_eq!(by_vm("fn f() { return 1; } let g = fn () { return 2; }; std.print(g, f(), g());").0, "Function12");
    assert_eq!(by_vm("if (1) std.print(1); else std.print(2);"), ("".to_string(), "failed Type".to_string()));
    assert_eq!(by_walk("if (1) std.print(1); else std.print(2);"), ("".to_string(), "failed Type".to_string()));
}
