use pitlang::errors::{ErrorKind, EvalError};
use pitlang::host::{answer, strings, Arith, Awaiting, HostRequest, HostResponse, Piece};
use pitlang::number::Number;
use pitlang::ops::{get_member, invert_value, negate_value, operate, set_member, to_operator, Operator};
use pitlang::render::{display_all, limit, render};
use pitlang::search::{find_in, matches_at, one_char, replace_in, split_in};
use pitlang::signal::{pop_many, pop_value, top_of};
use pitlang::stdlib::{
    apply, array_methods, call_host, find_method, number_methods, std_methods, string_methods,
    to_exit_code, to_place, to_slot, Builtin, Methods, Outcome,
};
use pitlang::store::{find_field, get_field, put_field, Scope, Store};
use pitlang::text::{collect, copy_string, push_decimal, push_text, to_chars};
use pitlang::tokenizer::TokenKind;
use pitlang::value::{copy_values, HostFn, Value, ValueType};

fn num(x: f64) -> Value {
    Value::Number(Number::new(x.to_bits()))
}

fn text(s: &str) -> Value {
    Value::String(s.to_string())
}

fn chars(s: &str) -> Vec<char> {
    s.chars().collect()
}

#[test]
fn text_helpers_build_strings() {
    assert_eq!(to_chars("héé"), vec!['h', 'é', 'é']);
    assert_eq!(collect(&chars("hello"), 1, 4), "ell");
    assert_eq!(collect(&chars("hello"), 2, 2), "");
    let mut s = String::from("n=");
    push_decimal(&mut s, 0);
    push_text(&mut s, ",");
    push_decimal(&mut s, 90210);
    push_text(&mut s, ",");
    push_decimal(&mut s, usize::MAX);
    assert_eq!(s, format!("n=0,90210,{}", usize::MAX));
    assert_eq!(copy_string(&s), s);
    assert_eq!(one_char('ß'), "ß");
}

#[test]
fn searching_is_that_of_the_standard_library() {
    let texts = ["", "a", "aaa", "abcabc", "hello world", "ababab", "héllo wörld", "a,b,,c", " x "];
    let needles = ["", "a", "aa", "b", "bc", "abc", "abcabcd", "l", "lo w", "ö", ",", ",,", " "];
    let withs = ["", "-", "ab", "a", "xyz"];
    for t in texts {
        for n in needles {
            let expected = t.find(n).map(|byte| t[..byte].chars().count());
            assert_eq!(find_in(&chars(t), &chars(n)), expected, "{:?} in {:?}", n, t);
            for w in withs {
                assert_eq!(replace_in(&chars(t), &chars(n), &chars(w)), t.replace(n, w), "{:?} {:?} {:?}", t, n, w);
            }
            let expected: Vec<String> = t.split(n).map(|p| p.to_string()).collect();
            assert_eq!(split_in(&chars(t), &chars(n)), expected, "{:?} split {:?}", t, n);
        }
    }
    assert!(matches_at(&chars("abc"), &chars("bc"), 1));
    assert!(matches_at(&chars("abc"), &chars(""), 3));
    assert!(!matches_at(&chars("abc"), &chars("bc"), 2));
    assert!(!matches_at(&chars("abc"), &chars(""), 4));
}

#[test]
fn fields_keep_the_order_of_their_first_setting() {
    let mut fields: Vec<(String, Value)> = vec![];
    put_field(&mut fields, "b".to_string(), num(1.0));
    put_field(&mut fields, "a".to_string(), num(2.0));
    put_field(&mut fields, "b".to_string(), num(3.0));
    assert_eq!(fields, vec![("b".to_string(), num(3.0)), ("a".to_string(), num(2.0))]);
    assert_eq!(find_field(&fields, &"a".to_string()), Some(1));
    assert_eq!(find_field(&fields, &"c".to_string()), None);
    assert_eq!(get_field(&fields, &"b".to_string()), Some(num(3.0)));
    assert_eq!(get_field(&fields, &"".to_string()), None);
}

#[test]
fn scopes_are_looked_up_from_the_inside_out() {
    let mut store = Store::new();
    let global = store.new_scope(None);
    let inner = store.new_scope(Some(global));
    let innermost = store.new_scope(Some(inner));
    let other = store.new_scope(Some(global));
    let x = "x".to_string();
    let y = "y".to_string();
    assert!(store.declare(global, x.clone(), num(1.0)));
    assert!(store.declare(inner, y.clone(), num(2.0)));
    assert!(!store.declare(99, x.clone(), num(0.0)));
    assert_eq!(store.lookup(innermost, &x), Some(num(1.0)));
    assert_eq!(store.lookup(innermost, &y), Some(num(2.0)));
    assert_eq!(store.lookup(other, &y), None);
    assert_eq!(store.lookup(99, &x), None);
    assert_eq!(store.find_home(innermost, &x), Some(global));
    assert_eq!(store.find_home(innermost, &y), Some(inner));
    assert_eq!(store.find_home(other, &y), None);
    assert!(store.assign(innermost, x.clone(), num(5.0)));
    assert_eq!(store.lookup(other, &x), Some(num(5.0)));
    assert!(!store.assign(other, y.clone(), num(6.0)));
    assert_eq!(store.lookup(inner, &y), Some(num(2.0)));
    assert!(store.declare(innermost, x.clone(), num(7.0)));
    assert_eq!(store.lookup(innermost, &x), Some(num(7.0)));
    assert_eq!(store.lookup(inner, &x), Some(num(5.0)));
    assert!(store.assign(innermost, x.clone(), num(8.0)));
    assert_eq!(store.lookup(innermost, &x), Some(num(8.0)));
    assert_eq!(store.lookup(global, &x), Some(num(5.0)));
}

#[test]
fn a_scope_whose_parent_does_not_lie_before_it_ends_the_chain() {
    let mut store = Store::new();
    let a = store.new_scope(Some(1));
    let b = store.new_scope(Some(0));
    store.declare(b, "x".to_string(), num(1.0));
    assert_eq!(store.lookup(a, &"x".to_string()), None);
    let mut s = Scope::new(Some(3));
    s.insert("k".to_string(), text("v"));
    assert_eq!(s.own(&"k".to_string()), Some(text("v")));
    assert_eq!(s.own(&"x".to_string()), None);
    assert_eq!(s.get(&store, &"k".to_string()), Some(text("v")));
    assert_eq!(s.get(&store, &"x".to_string()), None);
    assert_eq!(s.parent, Some(3));
}

#[test]
fn a_scope_reads_through_to_the_scopes_around_it() {
    let mut store = Store::new();
    let p = store.new_scope(None);
    store.declare(p, "x".to_string(), num(1.0));
    store.declare(p, "y".to_string(), num(7.0));
    let mut s = Scope::new(Some(p));
    s.insert("x".to_string(), num(2.0));
    assert_eq!(s.get(&store, &"x".to_string()), Some(num(2.0)));
    assert_eq!(s.get(&store, &"y".to_string()), Some(num(7.0)));
    assert_eq!(s.get(&store, &"z".to_string()), None);
    assert_eq!(s.own(&"y".to_string()), None);
    assert_eq!(store.scopes[p].get(&store, &"x".to_string()), Some(num(1.0)));
    assert_eq!(store.lookup(p, &"x".to_string()), Some(num(1.0)));
    let orphan = Scope::new(None);
    assert_eq!(orphan.get(&store, &"x".to_string()), None);
}

#[test]
fn set_and_remove_take_no_index_from_the_end() {
    let mut store = Store::new();
    let a = store.new_array(vec![num(1.0), num(2.0), num(3.0)]);
    let this = Value::Array(a);
    for i in [-1.0, 3.0, -0.5 - 1.0, 1e30, -1e30] {
        assert_eq!(
            apply(&mut store, Builtin::ArraySet, &this, &vec![num(i), num(9.0)]),
            Outcome::Fail(EvalError::ValueError("Index out of bounds".to_string())),
            "{i}"
        );
        assert_eq!(
            apply(&mut store, Builtin::ArrayRemove, &this, &vec![num(i)]),
            Outcome::Fail(EvalError::ValueError("Index out of bounds".to_string())),
            "{i}"
        );
        assert_eq!(store.arrays[a], vec![num(1.0), num(2.0), num(3.0)]);
    }
    assert_eq!(apply(&mut store, Builtin::ArraySet, &this, &vec![num(-0.5), num(9.0)]), Outcome::Value(Value::Null));
    assert_eq!(apply(&mut store, Builtin::ArraySet, &this, &vec![num(2.9), num(8.0)]), Outcome::Value(Value::Null));
    assert_eq!(store.arrays[a], vec![num(9.0), num(2.0), num(8.0)]);
    assert_eq!(apply(&mut store, Builtin::ArrayRemove, &this, &vec![num(1.0)]), Outcome::Value(num(2.0)));
    assert_eq!(store.arrays[a], vec![num(9.0), num(8.0)]);
    assert_eq!(apply(&mut store, Builtin::ArrayGet, &this, &vec![num(-1.0)]), Outcome::Value(num(8.0)));
}

#[test]
fn arrays_and_objects_live_in_the_store() {
    let mut store = Store::new();
    let a = store.new_array(vec![num(1.0), num(2.0)]);
    let b = store.new_array(vec![]);
    assert_eq!((a, b), (0, 1));
    assert_eq!(store.array_len(a), Some(2));
    assert_eq!(store.array_len(7), None);
    assert!(store.array_push(a, text("x")));
    assert!(!store.array_push(7, text("x")));
    assert_eq!(store.array_get(a, 2), Some(text("x")));
    assert_eq!(store.array_get(a, 3), None);
    assert!(store.array_set(a, 0, Value::Null));
    assert!(!store.array_set(a, 3, Value::Null));
    assert_eq!(store.array_find(a, &text("x")), Some(2));
    assert_eq!(store.array_find(a, &text("y")), None);
    assert_eq!(store.array_find(9, &text("x")), None);
    assert_eq!(store.array_remove(a, 1), Some(num(2.0)));
    assert_eq!(store.array_remove(a, 2), None);
    assert_eq!(store.array_pop(a), Some(text("x")));
    assert_eq!(store.array_pop(b), None);
    assert_eq!(store.arrays[a], vec![Value::Null]);
    let o = store.new_object(vec![]);
    assert!(store.object_set(o, "k".to_string(), num(1.0)));
    assert!(!store.object_set(5, "k".to_string(), num(1.0)));
    assert_eq!(store.object_get(o, &"k".to_string()), Some(num(1.0)));
    assert_eq!(store.object_get(o, &"j".to_string()), None);
    assert_eq!(store.object_get(5, &"k".to_string()), None);
}

#[test]
fn values_know_their_kind_and_their_truth() {
    let method = Value::Method { receiver: Box::new(text("s")), name: "length".to_string() };
    let all = vec![
        (num(0.0), "number", false),
        (num(-0.0), "number", false),
        (num(f64::NAN), "number", true),
        (num(0.5), "number", true),
        (Value::Boolean(true), "boolean", true),
        (Value::Boolean(false), "boolean", false),
        (text(""), "string", false),
        (text("0"), "string", true),
        (Value::Null, "null", false),
        (Value::Array(0), "array", true),
        (Value::Object(0), "object", true),
        (Value::Function(0), "function", true),
        (Value::HostFunction(HostFn::Print), "function", true),
        (method, "method", true),
    ];
    for (v, kind, truth) in &all {
        assert_eq!(v.get_type(), *kind);
        assert_eq!(v.is_truthy(), *truth, "{:?}", v);
        assert_eq!(&v.copy(), v);
        assert_eq!(v.equals(&v.copy()), !matches!(v, Value::Number(n) if n.is_nan()), "{:?}", v);
    }
    for (i, (a, _, _)) in all.iter().enumerate() {
        for (j, (b, _, _)) in all.iter().enumerate() {
            assert_eq!(a.equals(b), b.equals(a));
            if i != j && !(i < 2 && j < 2) {
                assert!(!a.equals(b), "{:?} {:?}", a, b);
            }
        }
    }
    assert!(num(0.0).equals(&num(-0.0)));
    assert_eq!(num(0.0).value_type(), ValueType::Number);
    assert_eq!(Value::HostFunction(HostFn::Exit).value_type(), ValueType::Function);
    assert_eq!(Value::Null.value_type(), ValueType::Null);
    let values: Vec<Value> = all.into_iter().map(|x| x.0).collect();
    assert_eq!(copy_values(&values).len(), values.len());
}

#[test]
fn operators_decide_what_they_can_and_ask_for_the_rest() {
    let (one, two) = (Number::new(1f64.to_bits()), Number::new(2f64.to_bits()));
    for (op, arith) in [
        (Operator::Add, Arith::Add),
        (Operator::Sub, Arith::Sub),
        (Operator::Mul, Arith::Mul),
        (Operator::Div, Arith::Div),
        (Operator::Mod, Arith::Rem),
    ] {
        assert_eq!(
            operate(op, &Value::Number(one), &Value::Number(two)),
            Outcome::Ask {
                request: HostRequest::Binary { op: arith, left: one, right: two },
                awaiting: Awaiting::Number
            }
        );
    }
    let zero = Number::new(0);
    assert!(matches!(operate(Operator::Div, &Value::Number(one), &Value::Number(zero)), Outcome::Ask { .. }));
    assert_eq!(operate(Operator::Lt, &num(1.0), &num(2.0)), Outcome::Value(Value::Boolean(true)));
    assert_eq!(operate(Operator::Ge, &num(1.0), &num(2.0)), Outcome::Value(Value::Boolean(false)));
    assert_eq!(operate(Operator::Le, &num(2.0), &num(2.0)), Outcome::Value(Value::Boolean(true)));
    assert_eq!(operate(Operator::Gt, &num(f64::NAN), &num(2.0)), Outcome::Value(Value::Boolean(false)));
    assert_eq!(operate(Operator::Eq, &num(f64::NAN), &num(f64::NAN)), Outcome::Value(Value::Boolean(false)));
    assert_eq!(operate(Operator::Ne, &text("a"), &num(1.0)), Outcome::Value(Value::Boolean(true)));
    assert_eq!(operate(Operator::Add, &text("a"), &text("b")), Outcome::Value(text("ab")));
    assert_eq!(operate(Operator::BitAnd, &num(-1.5), &num(255.9)), Outcome::Value(num(((-1i64) & 255) as f64)));
    assert_eq!(operate(Operator::BitOr, &num(-8.0), &num(3.0)), Outcome::Value(num(((-8i64) | 3) as f64)));
    assert_eq!(operate(Operator::BitOr, &num(1e300), &num(1.0)), Outcome::Value(num(i64::MAX as f64)));
    for op in [Operator::Sub, Operator::Lt, Operator::BitAnd] {
        assert!(matches!(operate(op, &text("a"), &text("b")), Outcome::Fail(EvalError::TypeError(_))));
        assert!(matches!(operate(op, &num(1.0), &Value::Null), Outcome::Fail(EvalError::TypeError(_))));
    }
    assert_eq!(negate_value(&num(2.0)), Ok(num(-2.0)));
    assert!(matches!(negate_value(&text("a")), Err(EvalError::TypeError(_))));
    assert_eq!(invert_value(&Value::Boolean(true)), Ok(Value::Boolean(false)));
    assert!(matches!(invert_value(&num(0.0)), Err(EvalError::TypeError(_))));
    assert_eq!(to_operator(TokenKind::Percent), Some(Operator::Mod));
    assert_eq!(to_operator(TokenKind::BitOr), Some(Operator::BitOr));
    assert_eq!(to_operator(TokenKind::BitXor), None);
    assert_eq!(to_operator(TokenKind::Assign), None);
    assert_eq!(to_operator(TokenKind::And), None);
}

#[test]
fn members_are_properties_of_objects_and_methods_of_everything_else() {
    let mut store = Store::new();
    let o = store.new_object(vec![("k".to_string(), num(1.0))]);
    let k = "k".to_string();
    assert_eq!(get_member(&store, Value::Object(o), &k), Ok(num(1.0)));
    assert_eq!(get_member(&store, Value::Object(o), &"j".to_string()), Err(EvalError::UndefinedVariable("j".to_string())));
    assert!(matches!(get_member(&store, Value::Object(9), &k), Err(EvalError::Runtime(_))));
    assert_eq!(
        get_member(&store, text("s"), &k),
        Ok(Value::Method { receiver: Box::new(text("s")), name: "k".to_string() })
    );
    assert_eq!(set_member(&mut store, &Value::Object(o), &k, text("v")), Ok(()));
    assert_eq!(store.object_get(o, &k), Some(text("v")));
    assert!(matches!(set_member(&mut store, &Value::Null, &k, text("v")), Err(EvalError::TypeError(_))));
    assert!(matches!(set_member(&mut store, &Value::Object(9), &k, text("v")), Err(EvalError::Runtime(_))));
}

#[test]
fn printing_lays_out_the_text_and_leaves_the_numbers_to_the_host() {
    let mut store = Store::new();
    let inner = store.new_array(vec![Value::Boolean(true)]);
    let o = store.new_object(vec![("a".to_string(), Value::Array(inner)), ("b".to_string(), Value::Null)]);
    let a = store.new_array(vec![num(1.0), text("x"), Value::Object(o)]);
    let one = Number::new(1f64.to_bits());
    let t = |s: &str| Piece::Text(s.to_string());
    assert_eq!(
        display_all(&store, &vec![Value::Array(a), text("!")]),
        vec![
            t("["),
            Piece::Number(one),
            t(", "),
            t("x"),
            t(", "),
            t("{"),
            t("a"),
            t(": "),
            t("["),
            t("true"),
            t("]"),
            t(", "),
            t("b"),
            t(": "),
            t("null"),
            t("}"),
            t("]"),
            t("!"),
        ]
    );
    assert_eq!(limit(&store), 4);
    let mut out = vec![];
    render(&store, &Value::Array(a), &vec![], 1, &mut out);
    assert_eq!(out, vec![t("["), Piece::Number(one), t(", "), t("x"), t(", "), t("{...}"), t("]")]);
    let mut out = vec![];
    render(&store, &Value::Array(a), &vec![], 0, &mut out);
    render(&store, &Value::Array(77), &vec![], 5, &mut out);
    render(&store, &Value::Object(77), &vec![], 5, &mut out);
    render(&store, &Value::Object(o), &vec![(false, o)], 5, &mut out);
    assert_eq!(out, vec![t("[...]"), t("[...]"), t("{...}"), t("{...}")]);
}

#[test]
fn the_tables_of_methods_name_every_builtin() {
    let names = |t: &Vec<(String, Builtin)>| t.iter().map(|e| e.0.clone()).collect::<Vec<_>>();
    assert_eq!(names(&string_methods()), ["length", "ord", "get", "to_int", "to_float", "replace", "split", "find"]);
    assert_eq!(names(&number_methods()), ["to_string", "round", "floor", "ceil"]);
    assert_eq!(names(&array_methods()), ["length", "remove", "push", "set", "get", "pop", "find"]);
    let std: Vec<String> = std_methods().iter().map(|e| e.0.clone()).collect();
    assert_eq!(std, ["time", "random", "print", "println", "argv", "get_line", "write_file", "read_file", "exit"]);
    assert_eq!(find_method(&string_methods(), &"get".to_string()), Some(Builtin::StringGet));
    assert_eq!(find_method(&array_methods(), &"get".to_string()), Some(Builtin::ArrayGet));
    assert_eq!(find_method(&number_methods(), &"get".to_string()), None);
}

#[test]
fn a_method_of_one_kind_is_none_of_another() {
    let mut store = Store::new();
    let a = store.new_array(vec![]);
    assert!(matches!(apply(&mut store, Builtin::ArrayPush, &text("s"), &vec![num(1.0)]), Outcome::Fail(EvalError::TypeError(_))));
    assert!(matches!(apply(&mut store, Builtin::StringLength, &Value::Array(a), &vec![]), Outcome::Fail(EvalError::TypeError(_))));
    assert!(matches!(apply(&mut store, Builtin::StringLength, &Value::Null, &vec![]), Outcome::Fail(EvalError::TypeError(_))));
    assert!(matches!(apply(&mut store, Builtin::ArrayLength, &Value::Array(5), &vec![]), Outcome::Fail(EvalError::Runtime(_))));
    let methods = Methods::new();
    assert_eq!(
        methods.call_method(&mut store, &text("abc"), &"length".to_string(), &vec![]),
        Outcome::Value(num(3.0))
    );
    assert_eq!(
        methods.call_method(&mut store, &Value::Null, &"length".to_string(), &vec![]),
        Outcome::Fail(EvalError::TypeError("Method not found: length".to_string()))
    );
    assert_eq!(
        call_host(&store, HostFn::Println, &vec![text("a"), Value::Null]),
        Outcome::Ask {
            request: HostRequest::Write {
                pieces: vec![Piece::Text("a".to_string()), Piece::Text("null".to_string())],
                newline: true
            },
            awaiting: Awaiting::Nothing
        }
    );
}

#[test]
fn indices_and_exit_codes_are_cut_from_numbers() {
    let n = |x: f64| Number::new(x.to_bits());
    assert_eq!(to_slot(3, 2), Some(2));
    assert_eq!(to_slot(3, 0), Some(0));
    assert_eq!(to_slot(3, 3), None);
    assert_eq!(to_slot(3, -1), None);
    assert_eq!(to_slot(0, 0), None);
    assert_eq!(to_slot(3, i64::MIN), None);
    assert_eq!(to_slot(3, i64::MAX), None);
    assert_eq!(to_exit_code(n(3.7)), 3);
    assert_eq!(to_exit_code(n(-3.7)), -3);
    assert_eq!(to_exit_code(n(1e10)), i32::MAX);
    assert_eq!(to_exit_code(n(-1e10)), i32::MIN);
    assert_eq!(to_place(3, 0), Some(0));
    assert_eq!(to_place(3, 2), Some(2));
    assert_eq!(to_place(3, 3), None);
    assert_eq!(to_place(3, -1), Some(2));
    assert_eq!(to_place(3, -3), Some(0));
    assert_eq!(to_place(3, -4), None);
    assert_eq!(to_place(0, 0), None);
    assert_eq!(to_place(3, i64::MIN), None);
    assert_eq!(to_place(3, i64::MAX), None);
}

#[test]
fn answers_are_read_as_what_was_awaited() {
    let mut store = Store::new();
    let one = Number::new(1f64.to_bits());
    assert_eq!(answer(&mut store, Awaiting::Number, HostResponse::Number(one)), Ok(Value::Number(one)));
    assert_eq!(answer(&mut store, Awaiting::Conversion, HostResponse::Number(one)), Ok(Value::Number(one)));
    assert_eq!(
        answer(&mut store, Awaiting::Conversion, HostResponse::Nothing).unwrap_err().kind(),
        ErrorKind::Value
    );
    assert_eq!(answer(&mut store, Awaiting::Text, HostResponse::Text("t".to_string())), Ok(text("t")));
    assert_eq!(answer(&mut store, Awaiting::TextOrNull, HostResponse::Text("t".to_string())), Ok(text("t")));
    assert_eq!(answer(&mut store, Awaiting::TextOrNull, HostResponse::Nothing), Ok(Value::Null));
    assert_eq!(answer(&mut store, Awaiting::Nothing, HostResponse::Nothing), Ok(Value::Null));
    assert_eq!(
        answer(&mut store, Awaiting::Texts, HostResponse::Texts(vec!["a".to_string(), "b".to_string()])),
        Ok(Value::Array(0))
    );
    assert_eq!(store.arrays[0], vec![text("a"), text("b")]);
    for (awaiting, response) in [
        (Awaiting::Number, HostResponse::Nothing),
        (Awaiting::Number, HostResponse::Text("1".to_string())),
        (Awaiting::Text, HostResponse::Nothing),
        (Awaiting::Texts, HostResponse::Nothing),
        (Awaiting::Nothing, HostResponse::Number(one)),
        (Awaiting::TextOrNull, HostResponse::Number(one)),
    ] {
        assert_eq!(answer(&mut store, awaiting, response).unwrap_err().kind(), ErrorKind::Runtime);
    }
    assert_eq!(strings(vec!["x".to_string()]), vec![text("x")]);
}

#[test]
fn stacks_give_their_top_and_their_topmost_values() {
    let mut stack = vec![num(1.0), num(2.0), num(3.0), num(4.0)];
    assert_eq!(top_of(&stack), num(4.0));
    assert_eq!(pop_many(&mut stack, 2), vec![num(3.0), num(4.0)]);
    assert_eq!(pop_many(&mut stack, 0), vec![]);
    assert_eq!(pop_value(&mut stack), Some(num(2.0)));
    assert_eq!(pop_many(&mut stack, 1), vec![num(1.0)]);
    assert_eq!(pop_value(&mut stack), None);
    assert_eq!(top_of(&stack), Value::Null);
}

#[test]
fn runtime_errors_say_their_kind() {
    assert_eq!(EvalError::undefined("x").message(), "Undefined variable: x");
    assert_eq!(EvalError::wrong_type("t").message(), "Type error: t");
    assert_eq!(EvalError::wrong_arguments("a").message(), "Argument error: a");
    assert_eq!(EvalError::wrong_value("v").message(), "Value error: v");
    assert_eq!(EvalError::failed("r").message(), "Runtime error: r");
    assert_eq!(EvalError::failed("r").copy(), EvalError::Runtime("r".to_string()));
    assert_eq!(EvalError::wrong_value("v").kind(), ErrorKind::Value);
}
