//! How values are printed.
//!
//! A number is printed by the host; the text around it is laid out here. An
//! array prints as `[a, b]` and an object as `{k: v}`, in the order in which
//! its names were first set. An array or object that holds itself prints as
//! `[...]` or `{...}` where it comes round again.

use vstd::prelude::*;
use crate::host::{pieces_view, pieces_view_push, Piece, PieceView};
use crate::store::{Fields, Store, StoreView};
use crate::value::{Value, ValueView};

verus! {

/// The arrays (`true`) and objects (`false`) that are being printed around
/// the value at hand.
pub type Trail = Seq<(bool, usize)>;

/// One piece of text.
pub open spec fn text_piece(s: Seq<char>) -> Seq<PieceView> {
    seq![PieceView::Text(s)]
}

/// What separates the element at `i` from the one before it.
pub open spec fn separator(i: int) -> Seq<PieceView> {
    if i > 0 {
        text_piece(", "@)
    } else {
        Seq::empty()
    }
}

/// The printed form of a value. `depth` bounds how deeply arrays and objects
/// are entered; beyond it, and where an array or object is met inside
/// itself, it prints as `[...]` or `{...}`.
pub open spec fn rendered(store: StoreView, v: ValueView, trail: Trail, depth: nat) -> Seq<PieceView>
    decreases depth, 0nat, 0nat,
{
    match v {
        ValueView::Number(n) => seq![PieceView::Number(n)],
        ValueView::Boolean(b) => if b {
            text_piece("true"@)
        } else {
            text_piece("false"@)
        },
        ValueView::String(s) => text_piece(s),
        ValueView::Null => text_piece("null"@),
        ValueView::Array(h) => if h >= store.arrays.len() || h > usize::MAX || depth == 0
            || trail.contains((true, h as usize)) {
            text_piece("[...]"@)
        } else {
            text_piece("["@) + rendered_items(
                store,
                store.arrays[h as int],
                0,
                trail.push((true, h as usize)),
                (depth - 1) as nat,
            ) + text_piece("]"@)
        },
        ValueView::Object(h) => if h >= store.objects.len() || h > usize::MAX || depth == 0
            || trail.contains((false, h as usize)) {
            text_piece("{...}"@)
        } else {
            text_piece("{"@) + rendered_fields(
                store,
                store.objects[h as int],
                0,
                trail.push((false, h as usize)),
                (depth - 1) as nat,
            ) + text_piece("}"@)
        },
        ValueView::Function(_) => text_piece("Function"@),
        ValueView::HostFunction(_) => text_piece("Function"@),
        ValueView::Method { .. } => text_piece("Method"@),
    }
}

/// The printed form of the elements of an array from the index `from` on.
pub open spec fn rendered_items(
    store: StoreView,
    items: Seq<ValueView>,
    from: int,
    trail: Trail,
    depth: nat,
) -> Seq<PieceView>
    decreases depth, 1nat, items.len() - from,
{
    if from < 0 || from >= items.len() {
        Seq::empty()
    } else {
        separator(from) + rendered(store, items[from], trail, depth) + rendered_items(
            store,
            items,
            from + 1,
            trail,
            depth,
        )
    }
}

/// The printed form of the properties of an object from the index `from`
/// on.
pub open spec fn rendered_fields(
    store: StoreView,
    fields: Fields,
    from: int,
    trail: Trail,
    depth: nat,
) -> Seq<PieceView>
    decreases depth, 1nat, fields.len() - from,
{
    if from < 0 || from >= fields.len() {
        Seq::empty()
    } else {
        separator(from) + text_piece(fields[from].0) + text_piece(": "@) + rendered(
            store,
            fields[from].1,
            trail,
            depth,
        ) + rendered_fields(store, fields, from + 1, trail, depth)
    }
}

/// How deeply printing enters the arrays and objects of a store: no chain
/// of arrays and objects, each inside the one before, is longer unless one
/// of them comes twice.
pub open spec fn depth_limit(store: StoreView) -> nat {
    if store.arrays.len() + store.objects.len() < usize::MAX {
        store.arrays.len() + store.objects.len() + 1
    } else {
        usize::MAX as nat
    }
}

/// The printed form of a value.
pub open spec fn displayed(store: StoreView, v: ValueView) -> Seq<PieceView> {
    rendered(store, v, Seq::empty(), depth_limit(store))
}

/// The printed form of the values from the index `from` on, one after the
/// other with nothing between them.
pub open spec fn displayed_all(store: StoreView, values: Seq<ValueView>, from: int) -> Seq<PieceView>
    decreases values.len() - from,
{
    if from < 0 || from >= values.len() {
        Seq::empty()
    } else {
        displayed(store, values[from]) + displayed_all(store, values, from + 1)
    }
}

fn on_trail(trail: &Vec<(bool, usize)>, array: bool, h: usize) -> (r: bool)
    ensures
        r == trail@.contains((array, h)),
{
    let mut i: usize = 0;
    while i < trail.len()
        invariant
            i <= trail.len(),
            forall|j: int| 0 <= j < i ==> trail@[j] != (array, h),
        decreases trail.len() - i,
    {
        if trail[i].0 == array && trail[i].1 == h {
            return true;
        }
        i += 1;
    }
    false
}

fn extended(trail: &Vec<(bool, usize)>, array: bool, h: usize) -> (r: Vec<(bool, usize)>)
    ensures
        r@ == trail@.push((array, h)),
{
    let mut r: Vec<(bool, usize)> = Vec::new();
    let mut i: usize = 0;
    while i < trail.len()
        invariant
            i <= trail.len(),
            r@ == trail@.take(i as int),
        decreases trail.len() - i,
    {
        r.push(trail[i]);
        assert(trail@.take(i as int + 1) =~= trail@.take(i as int).push(trail@[i as int]));
        i += 1;
    }
    assert(trail@.take(trail.len() as int) =~= trail@);
    r.push((array, h));
    r
}

fn put_text(out: &mut Vec<Piece>, s: &str)
    ensures
        pieces_view(final(out)@) == pieces_view(old(out)@) + text_piece(s@),
{
    let piece = Piece::Text(String::from_str(s));
    proof {
        pieces_view_push(out@, piece);
        assert(pieces_view(out@).push(piece@) =~= pieces_view(out@) + text_piece(s@));
    }
    out.push(piece);
}

fn put_separator(out: &mut Vec<Piece>, i: usize)
    ensures
        pieces_view(final(out)@) == pieces_view(old(out)@) + separator(i as int),
{
    if i > 0 {
        put_text(out, ", ");
    } else {
        assert(pieces_view(out@) + Seq::<PieceView>::empty() =~= pieces_view(out@));
    }
}

/// Appends the printed form of `value` to `out`.
pub fn render(
    store: &Store,
    value: &Value,
    trail: &Vec<(bool, usize)>,
    depth: usize,
    out: &mut Vec<Piece>,
)
    ensures
        pieces_view(final(out)@) == pieces_view(old(out)@) + rendered(
            store@,
            value@,
            trail@,
            depth as nat,
        ),
    decreases depth, 0nat, 0nat,
{
    match value {
        Value::Number(n) => {
            let piece = Piece::Number(*n);
            proof {
                pieces_view_push(out@, piece);
                assert(pieces_view(out@).push(piece@) =~= pieces_view(out@)
                    + seq![PieceView::Number(*n)]);
            }
            out.push(piece);
        },
        Value::Boolean(b) => {
            if *b {
                put_text(out, "true");
            } else {
                put_text(out, "false");
            }
        },
        Value::String(s) => {
            put_text(out, s.as_str());
        },
        Value::Null => {
            put_text(out, "null");
        },
        Value::Array(h) => {
            if *h >= store.arrays.len() || depth == 0 || on_trail(trail, true, *h) {
                put_text(out, "[...]");
            } else {
                let inner = extended(trail, true, *h);
                put_text(out, "[");
                let ghost opened = pieces_view(out@);
                render_items(store, &store.arrays[*h], 0, &inner, depth - 1, out);
                let ghost filled = pieces_view(out@);
                put_text(out, "]");
                assert(pieces_view(out@) =~= pieces_view(old(out)@) + (text_piece("["@)
                    + rendered_items(
                    store@,
                    store@.arrays[*h as int],
                    0,
                    inner@,
                    (depth - 1) as nat,
                ) + text_piece("]"@)));
            }
        },
        Value::Object(h) => {
            if *h >= store.objects.len() || depth == 0 || on_trail(trail, false, *h) {
                put_text(out, "{...}");
            } else {
                let inner = extended(trail, false, *h);
                put_text(out, "{");
                render_fields(store, &store.objects[*h], 0, &inner, depth - 1, out);
                put_text(out, "}");
                assert(pieces_view(out@) =~= pieces_view(old(out)@) + (text_piece("{"@)
                    + rendered_fields(
                    store@,
                    store@.objects[*h as int],
                    0,
                    inner@,
                    (depth - 1) as nat,
                ) + text_piece("}"@)));
            }
        },
        Value::Function(_) => {
            put_text(out, "Function");
        },
        Value::HostFunction(_) => {
            put_text(out, "Function");
        },
        Value::Method { .. } => {
            put_text(out, "Method");
        },
    }
}

fn render_items(
    store: &Store,
    items: &Vec<Value>,
    from: usize,
    trail: &Vec<(bool, usize)>,
    depth: usize,
    out: &mut Vec<Piece>,
)
    ensures
        pieces_view(final(out)@) == pieces_view(old(out)@) + rendered_items(
            store@,
            crate::value::values_view(items@),
            from as int,
            trail@,
            depth as nat,
        ),
    decreases depth, 1nat, items.len() - from,
{
    if from >= items.len() {
        assert(pieces_view(out@) + Seq::<PieceView>::empty() =~= pieces_view(out@));
    } else {
        put_separator(out, from);
        render(store, &items[from], trail, depth, out);
        render_items(store, items, from + 1, trail, depth, out);
        assert(pieces_view(out@) =~= pieces_view(old(out)@) + (separator(from as int) + rendered(
            store@,
            items@[from as int]@,
            trail@,
            depth as nat,
        ) + rendered_items(
            store@,
            crate::value::values_view(items@),
            from + 1,
            trail@,
            depth as nat,
        )));
    }
}

fn render_fields(
    store: &Store,
    fields: &Vec<(String, Value)>,
    from: usize,
    trail: &Vec<(bool, usize)>,
    depth: usize,
    out: &mut Vec<Piece>,
)
    ensures
        pieces_view(final(out)@) == pieces_view(old(out)@) + rendered_fields(
            store@,
            crate::value::fields_view(fields@),
            from as int,
            trail@,
            depth as nat,
        ),
    decreases depth, 1nat, fields.len() - from,
{
    if from >= fields.len() {
        assert(pieces_view(out@) + Seq::<PieceView>::empty() =~= pieces_view(out@));
    } else {
        put_separator(out, from);
        put_text(out, fields[from].0.as_str());
        put_text(out, ": ");
        render(store, &fields[from].1, trail, depth, out);
        render_fields(store, fields, from + 1, trail, depth, out);
        assert(pieces_view(out@) =~= pieces_view(old(out)@) + (separator(from as int)
            + text_piece(fields@[from as int].0@) + text_piece(": "@) + rendered(
            store@,
            fields@[from as int].1@,
            trail@,
            depth as nat,
        ) + rendered_fields(
            store@,
            crate::value::fields_view(fields@),
            from + 1,
            trail@,
            depth as nat,
        )));
    }
}

/// How deeply printing enters the arrays and objects of the store.
pub fn limit(store: &Store) -> (r: usize)
    ensures
        r == depth_limit(store@),
{
    let a = store.arrays.len();
    let o = store.objects.len();
    if a < usize::MAX - o {
        a + o + 1
    } else {
        usize::MAX
    }
}

/// The printed form of the values, one after the other.
pub fn display_all(store: &Store, values: &Vec<Value>) -> (out: Vec<Piece>)
    ensures
        pieces_view(out@) == displayed_all(store@, crate::value::values_view(values@), 0),
{
    let mut out: Vec<Piece> = Vec::new();
    let trail: Vec<(bool, usize)> = Vec::new();
    let depth = limit(store);
    let mut i: usize = 0;
    assert(pieces_view(out@) =~= Seq::empty());
    while i < values.len()
        invariant
            i <= values.len(),
            trail@ == Seq::<(bool, usize)>::empty(),
            depth == depth_limit(store@),
            displayed_all(store@, crate::value::values_view(values@), 0) == pieces_view(out@)
                + displayed_all(store@, crate::value::values_view(values@), i as int),
        decreases values.len() - i,
    {
        let ghost before = pieces_view(out@);
        render(store, &values[i], &trail, depth, &mut out);
        assert(pieces_view(out@) + displayed_all(
            store@,
            crate::value::values_view(values@),
            i + 1,
        ) =~= before + (displayed(store@, values@[i as int]@) + displayed_all(
            store@,
            crate::value::values_view(values@),
            i + 1,
        )));
        i += 1;
    }
    assert(pieces_view(out@) + Seq::<PieceView>::empty() =~= pieces_view(out@));
    out
}

} // verus!
