//! The store: the arrays, objects and scopes that the values of a running
//! program refer to.
//!
//! Nothing is ever taken out of the store, so a reference that was handed
//! out stays good. A reference that was never handed out refers to nothing:
//! every operation says what it does then.

use vstd::prelude::*;
use crate::value::{
    fields_view, fields_view_push, fields_view_update, same_value, values_view, values_view_push,
    values_view_update, Value, ValueView,
};

verus! {

/// Names with their values, in the order in which the names were first
/// given a value.
pub type Fields = Seq<(Seq<char>, ValueView)>;

/// The index of the first entry at or after `from` that has the given name.
pub open spec fn field_index_from(fields: Fields, name: Seq<char>, from: int) -> Option<int>
    decreases fields.len() - from,
{
    if from < 0 || from >= fields.len() {
        None
    } else if fields[from].0 == name {
        Some(from)
    } else {
        field_index_from(fields, name, from + 1)
    }
}

/// The index of the entry with the given name.
pub open spec fn field_index(fields: Fields, name: Seq<char>) -> Option<int> {
    field_index_from(fields, name, 0)
}

/// The value of the given name.
pub open spec fn field(fields: Fields, name: Seq<char>) -> Option<ValueView> {
    match field_index(fields, name) {
        Some(i) => Some(fields[i].1),
        None => None,
    }
}

/// The fields with `name` set to `value`: a name that has a value keeps its
/// place, a new name goes to the end.
pub open spec fn with_field(fields: Fields, name: Seq<char>, value: ValueView) -> Fields {
    match field_index(fields, name) {
        Some(i) => fields.update(i, (name, value)),
        None => fields.push((name, value)),
    }
}

pub proof fn field_index_bounds(fields: Fields, name: Seq<char>, from: int)
    requires
        0 <= from,
    ensures
        match field_index_from(fields, name, from) {
            Some(i) => from <= i < fields.len() && fields[i].0 == name,
            None => true,
        },
    decreases fields.len() - from,
{
    if from < fields.len() && fields[from].0 != name {
        field_index_bounds(fields, name, from + 1);
    }
}

/// One scope, as a mathematical value: its variables, and the scope around
/// it.
pub struct ScopeView {
    pub variables: Fields,
    pub parent: Option<nat>,
}

/// One scope: the variables declared in it, and the scope around it.
#[derive(Debug, PartialEq)]
pub struct Scope {
    pub variables: Vec<(String, Value)>,
    pub parent: Option<usize>,
}

impl View for Scope {
    type V = ScopeView;

    open spec fn view(&self) -> ScopeView {
        ScopeView {
            variables: fields_view(self.variables@),
            parent: match self.parent {
                Some(p) => Some(p as nat),
                None => None,
            },
        }
    }
}

/// The index of the entry with the given name.
pub fn find_field(fields: &Vec<(String, Value)>, name: &String) -> (r: Option<usize>)
    ensures
        match r {
            Some(i) => field_index(fields_view(fields@), name@) == Some(i as int) && i
                < fields.len(),
            None => field_index(fields_view(fields@), name@) is None,
        },
{
    let mut i: usize = 0;
    while i < fields.len()
        invariant
            i <= fields.len(),
            field_index(fields_view(fields@), name@) == field_index_from(
                fields_view(fields@),
                name@,
                i as int,
            ),
        decreases fields.len() - i,
    {
        if fields[i].0 == *name {
            return Some(i);
        }
        i += 1;
    }
    None
}

/// A copy of the value of the given name.
pub fn get_field(fields: &Vec<(String, Value)>, name: &String) -> (r: Option<Value>)
    ensures
        match r {
            Some(v) => field(fields_view(fields@), name@) == Some(v@),
            None => field(fields_view(fields@), name@) is None,
        },
{
    match find_field(fields, name) {
        Some(i) => Some(fields[i].1.copy()),
        None => None,
    }
}

/// Sets `name` to `value`.
pub fn put_field(fields: &mut Vec<(String, Value)>, name: String, value: Value)
    ensures
        fields_view(final(fields)@) == with_field(fields_view(old(fields)@), name@, value@),
{
    match find_field(fields, &name) {
        Some(i) => {
            proof {
                fields_view_update(fields@, i as int, name, value);
            }
            fields[i] = (name, value);
        },
        None => {
            proof {
                fields_view_push(fields@, name, value);
            }
            fields.push((name, value));
        },
    }
}

impl Scope {
    /// An empty scope inside `parent`.
    pub fn new(parent: Option<usize>) -> (s: Scope)
        ensures
            s@ == (ScopeView {
                variables: Seq::empty(),
                parent: match parent {
                    Some(p) => Some(p as nat),
                    None => None,
                },
            }),
    {
        let s = Scope { variables: Vec::new(), parent };
        assert(fields_view(s.variables@) =~= Seq::empty());
        s
    }

    /// Declares `name` in this scope with the given value; a variable of
    /// that name that the scope has already gets the value.
    pub fn insert(&mut self, name: String, value: Value)
        ensures
            final(self)@ == (ScopeView {
                variables: with_field(old(self)@.variables, name@, value@),
                parent: old(self)@.parent,
            }),
    {
        put_field(&mut self.variables, name, value);
    }

    /// The value of `name` in this scope itself; the scopes around it are not
    /// looked at.
    pub fn own(&self, name: &String) -> (r: Option<Value>)
        ensures
            match r {
                Some(v) => field(self@.variables, name@) == Some(v@),
                None => field(self@.variables, name@) is None,
            },
    {
        get_field(&self.variables, name)
    }

    /// The value of `name` as seen from this scope, whose parent lies in
    /// `store`: that of the scope itself if it declares the name, and else
    /// that of the innermost scope around it that does.
    pub fn get(&self, store: &Store, name: &String) -> (r: Option<Value>)
        ensures
            match r {
                Some(v) => seen(self@, store@.scopes, name@) == Some(v@),
                None => seen(self@, store@.scopes, name@) is None,
            },
    {
        match self.own(name) {
            Some(v) => Some(v),
            None => match self.parent {
                Some(p) => store.lookup(p, name),
                None => None,
            },
        }
    }
}

/// The store, as a mathematical value.
pub struct StoreView {
    pub arrays: Seq<Seq<ValueView>>,
    pub objects: Seq<Fields>,
    pub scopes: Seq<ScopeView>,
}

/// The store.
#[derive(Debug, PartialEq)]
pub struct Store {
    pub arrays: Vec<Vec<Value>>,
    pub objects: Vec<Vec<(String, Value)>>,
    pub scopes: Vec<Scope>,
}

pub open spec fn arrays_view(arrays: Seq<Vec<Value>>) -> Seq<Seq<ValueView>> {
    Seq::new(arrays.len(), |i: int| values_view(arrays[i]@))
}

pub open spec fn objects_view(objects: Seq<Vec<(String, Value)>>) -> Seq<Fields> {
    Seq::new(objects.len(), |i: int| fields_view(objects[i]@))
}

pub open spec fn scopes_view(scopes: Seq<Scope>) -> Seq<ScopeView> {
    Seq::new(scopes.len(), |i: int| scopes[i]@)
}

impl View for Store {
    type V = StoreView;

    open spec fn view(&self) -> StoreView {
        StoreView {
            arrays: arrays_view(self.arrays@),
            objects: objects_view(self.objects@),
            scopes: scopes_view(self.scopes@),
        }
    }
}

/// The value of `name` as seen from the scope `scope`: that of the innermost
/// scope, from `scope` outwards, that declares the name.
pub open spec fn lookup(scopes: Seq<ScopeView>, scope: nat, name: Seq<char>) -> Option<ValueView>
    decreases scope,
{
    if scope >= scopes.len() {
        None
    } else {
        match field(scopes[scope as int].variables, name) {
            Some(v) => Some(v),
            None => match scopes[scope as int].parent {
                Some(p) => if p < scope {
                    lookup(scopes, p, name)
                } else {
                    None
                },
                None => None,
            },
        }
    }
}

/// The value of `name` as seen from the scope `scope`, whose parent lies in
/// `scopes`: that of the scope itself if it declares the name, and else
/// that of the innermost scope around it that does.
pub open spec fn seen(scope: ScopeView, scopes: Seq<ScopeView>, name: Seq<char>) -> Option<
    ValueView,
> {
    match field(scope.variables, name) {
        Some(v) => Some(v),
        None => match scope.parent {
            Some(p) => lookup(scopes, p, name),
            None => None,
        },
    }
}

/// The innermost scope, from `scope` outwards, that declares `name`.
pub open spec fn home(scopes: Seq<ScopeView>, scope: nat, name: Seq<char>) -> Option<nat>
    decreases scope,
{
    if scope >= scopes.len() {
        None
    } else if field_index(scopes[scope as int].variables, name) is Some {
        Some(scope)
    } else {
        match scopes[scope as int].parent {
            Some(p) => if p < scope {
                home(scopes, p, name)
            } else {
                None
            },
            None => None,
        }
    }
}

/// The scopes with `name` declared in `scope`.
pub open spec fn declared(scopes: Seq<ScopeView>, scope: nat, name: Seq<char>, value: ValueView) -> Seq<
    ScopeView,
> {
    if scope < scopes.len() {
        scopes.update(
            scope as int,
            ScopeView {
                variables: with_field(scopes[scope as int].variables, name, value),
                parent: scopes[scope as int].parent,
            },
        )
    } else {
        scopes
    }
}

/// The scopes after `name` was assigned to from `scope`: the innermost scope
/// that declares the name has the new value. Where no scope declares it,
/// nothing changes.
pub open spec fn assigned(scopes: Seq<ScopeView>, scope: nat, name: Seq<char>, value: ValueView) -> Seq<
    ScopeView,
> {
    match home(scopes, scope, name) {
        Some(h) => declared(scopes, h, name, value),
        None => scopes,
    }
}

pub proof fn home_bounds(scopes: Seq<ScopeView>, scope: nat, name: Seq<char>)
    ensures
        match home(scopes, scope, name) {
            Some(h) => h < scopes.len() && h <= scope && field_index(
                scopes[h as int].variables,
                name,
            ) is Some,
            None => true,
        },
    decreases scope,
{
    if scope < scopes.len() && field_index(scopes[scope as int].variables, name) is None {
        match scopes[scope as int].parent {
            Some(p) => if p < scope {
                home_bounds(scopes, p, name);
            },
            None => {},
        }
    }
}

/// The variables of a new scope in which the parameters from the index
/// `from` on are bound to the arguments of a call, after `fields`. Of two
/// parameters of one name the later one counts.
pub open spec fn bound(parameters: Seq<String>, args: Seq<ValueView>, from: int, fields: Fields) -> Fields
    decreases parameters.len() - from,
{
    if from < 0 || from >= parameters.len() || from >= args.len() {
        fields
    } else {
        bound(parameters, args, from + 1, with_field(fields, parameters[from]@, args[from]))
    }
}

/// The place in an array that the index `i` stands for: a negative index
/// counts from the end.
pub open spec fn place(len: int, i: int) -> Option<int> {
    let at = if i < 0 {
        len + i
    } else {
        i
    };
    if 0 <= at < len {
        Some(at)
    } else {
        None
    }
}

/// The index of the first element at or after `from` that is equal to
/// `value`.
pub open spec fn position_from(items: Seq<ValueView>, value: ValueView, from: int) -> Option<int>
    decreases items.len() - from,
{
    if from < 0 || from >= items.len() {
        None
    } else if same_value(items[from], value) {
        Some(from)
    } else {
        position_from(items, value, from + 1)
    }
}

impl Store {
    /// An empty store.
    pub fn new() -> (s: Store)
        ensures
            s@ == (StoreView { arrays: Seq::empty(), objects: Seq::empty(), scopes: Seq::empty() }),
    {
        let s = Store { arrays: Vec::new(), objects: Vec::new(), scopes: Vec::new() };
        assert(s@.arrays =~= Seq::empty());
        assert(s@.objects =~= Seq::empty());
        assert(s@.scopes =~= Seq::empty());
        s
    }

    /// Puts a new array into the store and gives the reference to it.
    pub fn new_array(&mut self, items: Vec<Value>) -> (h: usize)
        ensures
            h == old(self)@.arrays.len(),
            final(self)@ == (StoreView {
                arrays: old(self)@.arrays.push(values_view(items@)),
                ..old(self)@
            }),
    {
        let h = self.arrays.len();
        self.arrays.push(items);
        assert(self@.arrays =~= old(self)@.arrays.push(values_view(items@)));
        h
    }

    /// Puts a new object into the store and gives the reference to it.
    pub fn new_object(&mut self, fields: Vec<(String, Value)>) -> (h: usize)
        ensures
            h == old(self)@.objects.len(),
            final(self)@ == (StoreView {
                objects: old(self)@.objects.push(fields_view(fields@)),
                ..old(self)@
            }),
    {
        let h = self.objects.len();
        self.objects.push(fields);
        assert(self@.objects =~= old(self)@.objects.push(fields_view(fields@)));
        h
    }

    /// Puts a new, empty scope inside `parent` into the store and gives the
    /// reference to it.
    pub fn new_scope(&mut self, parent: Option<usize>) -> (h: usize)
        ensures
            h == old(self)@.scopes.len(),
            final(self)@ == (StoreView {
                scopes: old(self)@.scopes.push(
                    ScopeView {
                        variables: Seq::empty(),
                        parent: match parent {
                            Some(p) => Some(p as nat),
                            None => None,
                        },
                    },
                ),
                ..old(self)@
            }),
    {
        let h = self.scopes.len();
        let scope = Scope::new(parent);
        self.scopes.push(scope);
        assert(self@.scopes =~= old(self)@.scopes.push(scope@));
        h
    }

    /// The length of the array `h`.
    pub fn array_len(&self, h: usize) -> (r: Option<usize>)
        ensures
            match r {
                Some(n) => h < self@.arrays.len() && n == self@.arrays[h as int].len(),
                None => h >= self@.arrays.len(),
            },
    {
        if h < self.arrays.len() {
            Some(self.arrays[h].len())
        } else {
            None
        }
    }

    /// A copy of the element at `i` of the array `h`.
    pub fn array_get(&self, h: usize, i: usize) -> (r: Option<Value>)
        ensures
            match r {
                Some(v) => h < self@.arrays.len() && i < self@.arrays[h as int].len() && v@
                    == self@.arrays[h as int][i as int],
                None => h >= self@.arrays.len() || i >= self@.arrays[h as int].len(),
            },
    {
        if h < self.arrays.len() && i < self.arrays[h].len() {
            Some(self.arrays[h][i].copy())
        } else {
            None
        }
    }

    /// Sets the element at `i` of the array `h`, and says whether there is
    /// such an element.
    pub fn array_set(&mut self, h: usize, i: usize, value: Value) -> (r: bool)
        ensures
            r == (h < old(self)@.arrays.len() && i < old(self)@.arrays[h as int].len()),
            r ==> final(self)@ == (StoreView {
                arrays: old(self)@.arrays.update(
                    h as int,
                    old(self)@.arrays[h as int].update(i as int, value@),
                ),
                ..old(self)@
            }),
            !r ==> final(self)@ == old(self)@,
    {
        if h < self.arrays.len() && i < self.arrays[h].len() {
            proof {
                values_view_update(self.arrays@[h as int]@, i as int, value);
            }
            self.arrays[h][i] = value;
            assert(self@.arrays =~= old(self)@.arrays.update(
                h as int,
                old(self)@.arrays[h as int].update(i as int, value@),
            ));
            assert(self@.objects =~= old(self)@.objects);
            assert(self@.scopes =~= old(self)@.scopes);
            true
        } else {
            false
        }
    }

    /// Appends `value` to the array `h`, and says whether there is such an
    /// array.
    pub fn array_push(&mut self, h: usize, value: Value) -> (r: bool)
        ensures
            r == (h < old(self)@.arrays.len()),
            r ==> final(self)@ == (StoreView {
                arrays: old(self)@.arrays.update(
                    h as int,
                    old(self)@.arrays[h as int].push(value@),
                ),
                ..old(self)@
            }),
            !r ==> final(self)@ == old(self)@,
    {
        if h < self.arrays.len() {
            proof {
                values_view_push(self.arrays@[h as int]@, value);
            }
            self.arrays[h].push(value);
            assert(self@.arrays =~= old(self)@.arrays.update(
                h as int,
                old(self)@.arrays[h as int].push(value@),
            ));
            assert(self@.objects =~= old(self)@.objects);
            assert(self@.scopes =~= old(self)@.scopes);
            true
        } else {
            false
        }
    }

    /// Takes the last element off the array `h`.
    pub fn array_pop(&mut self, h: usize) -> (r: Option<Value>)
        ensures
            match r {
                Some(v) => h < old(self)@.arrays.len() && old(self)@.arrays[h as int].len() > 0
                    && v@ == old(self)@.arrays[h as int].last() && final(self)@ == (StoreView {
                    arrays: old(self)@.arrays.update(
                        h as int,
                        old(self)@.arrays[h as int].drop_last(),
                    ),
                    ..old(self)@
                }),
                None => (h >= old(self)@.arrays.len() || old(self)@.arrays[h as int].len() == 0)
                    && final(self)@ == old(self)@,
            },
    {
        if h < self.arrays.len() && self.arrays[h].len() > 0 {
            let r = self.arrays[h].pop();
            assert(self@.arrays =~= old(self)@.arrays.update(
                h as int,
                old(self)@.arrays[h as int].drop_last(),
            )) by {
                assert(values_view(self.arrays@[h as int]@) =~= old(self)@.arrays[h as int].drop_last());
            }
            assert(self@.objects =~= old(self)@.objects);
            assert(self@.scopes =~= old(self)@.scopes);
            r
        } else {
            None
        }
    }

    /// Takes the element at `i` out of the array `h`; the elements after it
    /// move down by one.
    pub fn array_remove(&mut self, h: usize, i: usize) -> (r: Option<Value>)
        ensures
            match r {
                Some(v) => h < old(self)@.arrays.len() && i < old(self)@.arrays[h as int].len()
                    && v@ == old(self)@.arrays[h as int][i as int] && final(self)@ == (StoreView {
                    arrays: old(self)@.arrays.update(
                        h as int,
                        old(self)@.arrays[h as int].remove(i as int),
                    ),
                    ..old(self)@
                }),
                None => (h >= old(self)@.arrays.len() || i >= old(self)@.arrays[h as int].len())
                    && final(self)@ == old(self)@,
            },
    {
        if h < self.arrays.len() && i < self.arrays[h].len() {
            let r = self.arrays[h].remove(i);
            assert(self@.arrays =~= old(self)@.arrays.update(
                h as int,
                old(self)@.arrays[h as int].remove(i as int),
            )) by {
                assert(values_view(self.arrays@[h as int]@) =~= old(self)@.arrays[h as int].remove(
                    i as int,
                ));
            }
            assert(self@.objects =~= old(self)@.objects);
            assert(self@.scopes =~= old(self)@.scopes);
            Some(r)
        } else {
            None
        }
    }

    /// The index of the first element of the array `h` that is equal to
    /// `value`.
    pub fn array_find(&self, h: usize, value: &Value) -> (r: Option<usize>)
        ensures
            match r {
                Some(i) => h < self@.arrays.len() && position_from(
                    self@.arrays[h as int],
                    value@,
                    0,
                ) == Some(i as int),
                None => h >= self@.arrays.len() || position_from(
                    self@.arrays[h as int],
                    value@,
                    0,
                ) is None,
            },
    {
        if h >= self.arrays.len() {
            return None;
        }
        let items = &self.arrays[h];
        let mut i: usize = 0;
        while i < items.len()
            invariant
                i <= items.len(),
                items == self.arrays@[h as int],
                h < self@.arrays.len(),
                position_from(self@.arrays[h as int], value@, 0) == position_from(
                    self@.arrays[h as int],
                    value@,
                    i as int,
                ),
            decreases items.len() - i,
        {
            if items[i].equals(value) {
                return Some(i);
            }
            i += 1;
        }
        None
    }

    /// A copy of the value of the property `name` of the object `h`.
    pub fn object_get(&self, h: usize, name: &String) -> (r: Option<Value>)
        ensures
            match r {
                Some(v) => h < self@.objects.len() && field(self@.objects[h as int], name@)
                    == Some(v@),
                None => h >= self@.objects.len() || field(self@.objects[h as int], name@) is None,
            },
    {
        if h < self.objects.len() {
            get_field(&self.objects[h], name)
        } else {
            None
        }
    }

    /// Sets the property `name` of the object `h`, and says whether there is
    /// such an object.
    pub fn object_set(&mut self, h: usize, name: String, value: Value) -> (r: bool)
        ensures
            r == (h < old(self)@.objects.len()),
            r ==> final(self)@ == (StoreView {
                objects: old(self)@.objects.update(
                    h as int,
                    with_field(old(self)@.objects[h as int], name@, value@),
                ),
                ..old(self)@
            }),
            !r ==> final(self)@ == old(self)@,
    {
        if h < self.objects.len() {
            put_field(&mut self.objects[h], name, value);
            assert(self@.objects =~= old(self)@.objects.update(
                h as int,
                with_field(old(self)@.objects[h as int], name@, value@),
            ));
            assert(self@.arrays =~= old(self)@.arrays);
            assert(self@.scopes =~= old(self)@.scopes);
            true
        } else {
            false
        }
    }

    /// Declares `name` in the scope `scope`, and says whether there is such
    /// a scope.
    pub fn declare(&mut self, scope: usize, name: String, value: Value) -> (r: bool)
        ensures
            r == (scope < old(self)@.scopes.len()),
            final(self)@ == (StoreView {
                scopes: declared(old(self)@.scopes, scope as nat, name@, value@),
                ..old(self)@
            }),
    {
        if scope < self.scopes.len() {
            self.scopes[scope].insert(name, value);
            assert(self@.scopes =~= declared(old(self)@.scopes, scope as nat, name@, value@));
            assert(self@.arrays =~= old(self)@.arrays);
            assert(self@.objects =~= old(self)@.objects);
            true
        } else {
            false
        }
    }

    /// A copy of the value of `name` as seen from the scope `scope`.
    pub fn lookup(&self, scope: usize, name: &String) -> (r: Option<Value>)
        ensures
            match r {
                Some(v) => lookup(self@.scopes, scope as nat, name@) == Some(v@),
                None => lookup(self@.scopes, scope as nat, name@) is None,
            },
        decreases scope,
    {
        if scope >= self.scopes.len() {
            return None;
        }
        match self.scopes[scope].own(name) {
            Some(v) => Some(v),
            None => match self.scopes[scope].parent {
                Some(p) => if p < scope {
                    self.lookup(p, name)
                } else {
                    None
                },
                None => None,
            },
        }
    }

    /// The innermost scope, from `scope` outwards, that declares `name`.
    pub fn find_home(&self, scope: usize, name: &String) -> (r: Option<usize>)
        ensures
            match r {
                Some(h) => home(self@.scopes, scope as nat, name@) == Some(h as nat),
                None => home(self@.scopes, scope as nat, name@) is None,
            },
        decreases scope,
    {
        if scope >= self.scopes.len() {
            return None;
        }
        match find_field(&self.scopes[scope].variables, name) {
            Some(_) => Some(scope),
            None => match self.scopes[scope].parent {
                Some(p) => if p < scope {
                    self.find_home(p, name)
                } else {
                    None
                },
                None => None,
            },
        }
    }

    /// Gives `name` a new value in the innermost scope, from `scope`
    /// outwards, that declares it, and says whether there is such a scope.
    pub fn assign(&mut self, scope: usize, name: String, value: Value) -> (r: bool)
        ensures
            r == home(old(self)@.scopes, scope as nat, name@) is Some,
            final(self)@ == (StoreView {
                scopes: assigned(old(self)@.scopes, scope as nat, name@, value@),
                ..old(self)@
            }),
    {
        match self.find_home(scope, &name) {
            Some(h) => {
                proof {
                    home_bounds(self@.scopes, scope as nat, name@);
                }
                self.declare(h, name, value);
                true
            },
            None => false,
        }
    }
}

} // verus!
