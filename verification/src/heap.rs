use vstd::prelude::*;
use std::sync::Arc;
use crate::dict::Dict;
use crate::extends::ExtendsInternal;
use crate::text::{has_prefix, starts_with, skip_chars};
use crate::value::BufValue;

verus! {

/// `self.`
pub open spec fn self_dot() -> Seq<char> {
    seq!['s', 'e', 'l', 'f', '.']
}

/// `self.$`
pub open spec fn self_dollar() -> Seq<char> {
    seq!['s', 'e', 'l', 'f', '.', '$']
}

/// `self.->&$`
pub open spec fn self_mut_ref() -> Seq<char> {
    seq!['s', 'e', 'l', 'f', '.', '-', '>', '&', '$']
}

/// `self.->$`
pub open spec fn self_move() -> Seq<char> {
    seq!['s', 'e', 'l', 'f', '.', '-', '>', '$']
}

/// `->&`
pub open spec fn mut_ref_mark() -> Seq<char> {
    seq!['-', '>', '&']
}

/// `->`
pub open spec fn move_mark() -> Seq<char> {
    seq!['-', '>']
}

/// `$`
pub open spec fn dollar() -> Seq<char> {
    seq!['$']
}

/// The value that reading a slot yields: the pointee of a pointer (nothing
/// for a null pointer), the slot's own value otherwise.
pub open spec fn deref_spec(v: BufValue) -> Option<BufValue> {
    match v {
        BufValue::Pointer(r) => match r.target {
            Some(t) => Some(*t),
            None => None,
        },
        BufValue::PointerMut(r) => match r.target {
            Some(t) => Some(*t),
            None => None,
        },
        e => Some(e),
    }
}

/// The variables of a running Lead program. A heap may sit inside another,
/// its parent, whose variables it reaches through keys that begin with `self.`.
#[derive(Debug)]
pub struct Heap {
    pub data: Dict<BufValue>,
    pub this: Option<Box<Heap>>,
    pub def_extends: Arc<ExtendsInternal>,
    pub extends: ExtendsInternal,
}

/// What `Heap::get` returns for `key`.
pub open spec fn get_spec(h: Heap, key: Seq<char>) -> Option<BufValue>
    decreases h,
{
    if has_prefix(key, self_dollar()) {
        match h.this {
            Some(p) => get_spec(*p, key.skip(5)),
            None => None,
        }
    } else if h.data.view().contains_key(key) {
        deref_spec(h.data.view()[key])
    } else {
        None
    }
}

/// `post` is `pre` after `Heap::set(key, val)`, which returned `ok`: keys
/// that begin with `self.` are set, without that prefix, in the parent;
/// other keys must begin with `$`.
pub open spec fn set_rel(pre: Heap, key: Seq<char>, val: BufValue, post: Heap, ok: bool) -> bool
    decreases pre,
{
    if has_prefix(key, self_dot()) {
        match pre.this {
            None => !ok && post == pre,
            Some(p) => {
                &&& post.data == pre.data
                &&& post.extends == pre.extends
                &&& post.def_extends == pre.def_extends
                &&& post.this is Some
                &&& set_rel(*p, key.skip(5), val, *post.this.unwrap(), ok)
            },
        }
    } else if !has_prefix(key, dollar()) {
        !ok && post == pre
    } else {
        &&& ok
        &&& post.data.view() == pre.data.view().insert(key, val)
        &&& post.this == pre.this
        &&& post.extends == pre.extends
        &&& post.def_extends == pre.def_extends
    }
}

/// `post` is `pre` after `Heap::remove(key)`, which returned `r`: keys that
/// begin with `self.->$` are removed, without `self.`, from the parent; other
/// keys must begin with `->`, which the name of the variable follows.
pub open spec fn remove_rel(pre: Heap, key: Seq<char>, post: Heap, r: Option<Option<BufValue>>) -> bool
    decreases pre,
{
    if has_prefix(key, self_move()) {
        match pre.this {
            None => r is None && post == pre,
            Some(p) => {
                &&& post.data == pre.data
                &&& post.extends == pre.extends
                &&& post.def_extends == pre.def_extends
                &&& post.this is Some
                &&& remove_rel(*p, key.skip(5), *post.this.unwrap(), r)
            },
        }
    } else if !has_prefix(key, move_mark()) {
        r is None && post == pre
    } else {
        let k = key.skip(2);
        &&& r == Some(
            if pre.data.view().contains_key(k) {
                Some(pre.data.view()[k])
            } else {
                None
            },
        )
        &&& post.data.view() == pre.data.view().remove(k)
        &&& post.this == pre.this
        &&& post.extends == pre.extends
        &&& post.def_extends == pre.def_extends
    }
}

/// The value that `Heap::get_mut(key)` hands out for update.
pub open spec fn get_mut_target(h: Heap, key: Seq<char>) -> Option<BufValue>
    decreases h,
{
    if has_prefix(key, self_mut_ref()) {
        match h.this {
            Some(p) => get_mut_target(*p, key.skip(5)),
            None => None,
        }
    } else if !has_prefix(key, mut_ref_mark()) {
        None
    } else {
        let k = key.skip(3);
        if !h.data.view().contains_key(k) {
            None
        } else {
            match h.data.view()[k] {
                BufValue::Pointer(_) => None,
                BufValue::PointerMut(r) => match r.target {
                    Some(t) => Some(*t),
                    None => None,
                },
                e => Some(e),
            }
        }
    }
}

/// `post` is `pre` with the value that `get_mut(key)` handed out replaced by
/// `new`: the slot itself, or the pointee of the mutable pointer in it.
pub open spec fn put_rel(pre: Heap, key: Seq<char>, new: BufValue, post: Heap) -> bool
    decreases pre,
{
    if has_prefix(key, self_mut_ref()) {
        match pre.this {
            Some(p) => {
                &&& post.data == pre.data
                &&& post.extends == pre.extends
                &&& post.def_extends == pre.def_extends
                &&& post.this is Some
                &&& put_rel(*p, key.skip(5), new, *post.this.unwrap())
            },
            None => post == pre,
        }
    } else if !has_prefix(key, mut_ref_mark()) {
        post == pre
    } else {
        let k = key.skip(3);
        &&& post.data.view() == pre.data.view().insert(
            k,
            match pre.data.view()[k] {
                BufValue::PointerMut(r) => BufValue::PointerMut(
                    crate::value::Ref { addr: r.addr, target: Some(Box::new(new)) },
                ),
                _ => new,
            },
        )
        &&& post.this == pre.this
        &&& post.extends == pre.extends
        &&& post.def_extends == pre.def_extends
    }
}

impl Heap {
    /// The heap has a prototype table for every kind of value, of its own
    /// and among the defaults.
    pub open spec fn wf(self) -> bool {
        &&& self.extends.wf()
        &&& self.def_extends.wf()
    }

    /// An empty heap with no parent, whose default prototypes are `def_extends`.
    pub fn new(def_extends: Arc<ExtendsInternal>) -> (r: Self)
        requires
            def_extends.wf(),
        ensures
            r.wf(),
            r.data.view() == Map::<Seq<char>, BufValue>::empty(),
            r.this is None,
            r.def_extends == def_extends,
            r.extends.view() == ExtendsInternal::new_view(),
    {
        Heap { data: Dict::new(), this: None, def_extends, extends: ExtendsInternal::new() }
    }

    /// An empty heap inside `this`.
    pub fn new_with_this(this: Heap, def_extends: Arc<ExtendsInternal>) -> (r: Self)
        requires
            def_extends.wf(),
        ensures
            r.wf(),
            r.data.view() == Map::<Seq<char>, BufValue>::empty(),
            r.this == Some(Box::new(this)),
            r.def_extends == def_extends,
            r.extends.view() == ExtendsInternal::new_view(),
    {
        Heap {
            data: Dict::new(),
            this: Some(Box::new(this)),
            def_extends,
            extends: ExtendsInternal::new(),
        }
    }

    /// Takes the heap apart, giving back the heap it sat inside.
    pub fn into_parent(self) -> (r: Option<Heap>)
        ensures
            r == match self.this {
                Some(p) => Some(*p),
                None => None,
            },
    {
        match self.this {
            Some(p) => Some(*p),
            None => None,
        }
    }

    /// The prototype tables of this heap and the defaults.
    pub fn get_extends(&self) -> (r: (&ExtendsInternal, &ExtendsInternal))
        ensures
            *r.0 == self.extends,
            *r.1 == *self.def_extends,
    {
        (&self.extends, &*self.def_extends)
    }

    /// Forgets every variable, the parent and the installed prototypes.
    pub fn clear(&mut self)
        requires
            old(self).wf(),
        ensures
            final(self).wf(),
            final(self).data.view() == Map::<Seq<char>, BufValue>::empty(),
            final(self).this is None,
            final(self).def_extends == old(self).def_extends,
            final(self).extends.view() == ExtendsInternal::new_view(),
    {
        *self = Self::new(self.def_extends.clone());
    }

    /// The variables themselves.
    pub fn inner_heap(&mut self) -> (r: &mut Dict<BufValue>)
        ensures
            *r == old(self).data,
            final(self).data == *final(r),
            final(self).this == old(self).this,
            final(self).extends == old(self).extends,
            final(self).def_extends == old(self).def_extends,
    {
        &mut self.data
    }

    /// Stores `val` under `key`. Keys that begin with `self.` name a variable
    /// of the parent heap; other keys must begin with `$`. Returns `None`, and
    /// changes nothing, when neither holds.
    pub fn set(&mut self, key: String, val: BufValue) -> (r: Option<()>)
        ensures
            final(self).extends == old(self).extends,
            final(self).def_extends == old(self).def_extends,
            set_rel(*old(self), key@, val, *final(self), r is Some),
        decreases key@.len(),
    {
        let self_dot_lit = "self.";
        proof {
            reveal_strlit("self.");
            assert(self_dot_lit@ =~= self_dot());
        }
        if starts_with(key.as_str(), self_dot_lit) {
            let rest = String::from_str(skip_chars(key.as_str(), 5));
            match &mut self.this {
                Some(p) => {
                    return p.set(rest, val);
                },
                None => {
                    return None;
                },
            }
        }
        let dollar_lit = "$";
        proof {
            reveal_strlit("$");
            assert(dollar_lit@ =~= dollar());
        }
        if !starts_with(key.as_str(), dollar_lit) {
            return None;
        }
        self.data.insert(key, val);
        Some(())
    }

    /// Reads the variable `key`, following a pointer stored there. Keys that
    /// begin with `self.$` read the parent's variable.
    pub fn get(&self, key: &str) -> (r: Option<&BufValue>)
        ensures
            match r {
                Some(v) => get_spec(*self, key@) == Some(*v),
                None => get_spec(*self, key@) is None,
            },
        decreases key@.len(),
    {
        let lit = "self.$";
        proof {
            reveal_strlit("self.$");
            assert(lit@ =~= self_dollar());
        }
        if starts_with(key, lit) {
            return match &self.this {
                Some(p) => p.get(skip_chars(key, 5)),
                None => None,
            };
        }
        match self.data.get(key) {
            None => None,
            Some(v) => match v {
                BufValue::Pointer(r) => match &r.target {
                    Some(t) => Some(&**t),
                    None => None,
                },
                BufValue::PointerMut(r) => match &r.target {
                    Some(t) => Some(&**t),
                    None => None,
                },
                e => Some(e),
            },
        }
    }

    /// Hands out the variable `->&name` for update in place: the pointee of a
    /// mutable pointer stored there, or the slot itself; nothing for an
    /// immutable or null pointer. Keys that begin with `self.->&$` reach the
    /// parent's variable.
    pub fn get_mut(&mut self, key: &str) -> (r: Option<&mut BufValue>)
        ensures
            final(self).extends == old(self).extends,
            final(self).def_extends == old(self).def_extends,
            match r {
                Some(v) => get_mut_target(*old(self), key@) == Some(*v) && put_rel(
                    *old(self),
                    key@,
                    *final(v),
                    *final(self),
                ),
                None => get_mut_target(*old(self), key@) is None && *final(self) == *old(self),
            },
        decreases key@.len(),
    {
        let lit = "self.->&$";
        proof {
            reveal_strlit("self.->&$");
            assert(lit@ =~= self_mut_ref());
        }
        if starts_with(key, lit) {
            return match &mut self.this {
                Some(p) => p.get_mut(skip_chars(key, 5)),
                None => None,
            };
        }
        let mark = "->&";
        proof {
            reveal_strlit("->&");
            assert(mark@ =~= mut_ref_mark());
        }
        if !starts_with(key, mark) {
            return None;
        }
        let k = skip_chars(key, 3);
        match self.data.get(k) {
            None => {
                return None;
            },
            Some(BufValue::Pointer(_)) => {
                return None;
            },
            Some(BufValue::PointerMut(r)) => {
                if r.target.is_none() {
                    return None;
                }
            },
            Some(_) => {},
        }
        match self.data.get_mut(k) {
            None => None,
            Some(v) => match v {
                BufValue::PointerMut(r) => match &mut r.target {
                    Some(t) => Some(&mut **t),
                    None => None,
                },
                e => Some(e),
            },
        }
    }

    /// Takes the variable `->name` out of the heap. Keys that begin with
    /// `self.->$` take the parent's variable. Returns `None` when the key has
    /// neither form, else whether the variable was there.
    pub fn remove(&mut self, key: &str) -> (r: Option<Option<BufValue>>)
        ensures
            final(self).extends == old(self).extends,
            final(self).def_extends == old(self).def_extends,
            remove_rel(*old(self), key@, *final(self), r),
        decreases key@.len(),
    {
        let lit = "self.->$";
        proof {
            reveal_strlit("self.->$");
            assert(lit@ =~= self_move());
        }
        if starts_with(key, lit) {
            return match &mut self.this {
                Some(p) => p.remove(skip_chars(key, 5)),
                None => None,
            };
        }
        let mark = "->";
        proof {
            reveal_strlit("->");
            assert(mark@ =~= move_mark());
        }
        if !starts_with(key, mark) {
            return None;
        }
        let k = skip_chars(key, 2);
        Some(self.data.remove(k))
    }
}

/// A value stored under a `$` key is what reading that key yields (the
/// pointee, for a pointer).
pub proof fn law_set_then_get(pre: Heap, key: Seq<char>, val: BufValue, post: Heap, ok: bool)
    requires
        has_prefix(key, dollar()),
        set_rel(pre, key, val, post, ok),
    ensures
        ok,
        get_spec(post, key) == deref_spec(val),
{
    assert(!has_prefix(key, self_dot()));
    assert(!has_prefix(key, self_dollar()));
}

/// A value stored under `self.$name` goes into the parent heap, and reading
/// `self.$name` yields it (the pointee, for a pointer); the heap's own
/// variables are left as they were.
pub proof fn law_self_set_then_get(pre: Heap, key: Seq<char>, val: BufValue, post: Heap, ok: bool)
    requires
        has_prefix(key, dollar()),
        pre.this is Some,
        set_rel(pre, self_dot() + key, val, post, ok),
    ensures
        ok,
        get_spec(post, self_dot() + key) == deref_spec(val),
        post.data == pre.data,
{
    let k = self_dot() + key;
    assert(k.take(5) =~= self_dot());
    assert(k.skip(5) =~= key);
    assert(k.take(6) =~= self_dollar()) by {
        assert(key.take(1) == dollar());
        assert(key.take(1)[0] == key[0]);
        assert(key[0] == '$');
        assert(k[5] == key[0]);
    }
    assert(!has_prefix(key, self_dot()));
    assert(!has_prefix(key, self_dollar()));
    law_set_then_get(*pre.this.unwrap(), key, val, *post.this.unwrap(), ok);
}

/// Setting a key leaves every other key of the same heap as it was.
pub proof fn law_set_keeps_others(
    pre: Heap,
    key: Seq<char>,
    val: BufValue,
    post: Heap,
    ok: bool,
    other: Seq<char>,
)
    requires
        has_prefix(key, dollar()),
        has_prefix(other, dollar()),
        other != key,
        set_rel(pre, key, val, post, ok),
    ensures
        get_spec(post, other) == get_spec(pre, other),
{
    assert(!has_prefix(key, self_dot()));
    assert(!has_prefix(other, self_dollar()));
}

/// A key that begins neither with `$` nor with `self.` is refused and the
/// heap is left as it was.
pub proof fn law_set_refuses(pre: Heap, key: Seq<char>, val: BufValue, post: Heap, ok: bool)
    requires
        !has_prefix(key, dollar()),
        !has_prefix(key, self_dot()),
        set_rel(pre, key, val, post, ok),
    ensures
        !ok,
        post == pre,
{
}

/// Moving a variable out with `->name` yields the value last set under
/// `name`, and leaves the variable unset.
pub proof fn law_set_then_remove(
    pre: Heap,
    key: Seq<char>,
    val: BufValue,
    mid: Heap,
    ok: bool,
    post: Heap,
    r: Option<Option<BufValue>>,
)
    requires
        has_prefix(key, dollar()),
        set_rel(pre, key, val, mid, ok),
        remove_rel(mid, move_mark() + key, post, r),
    ensures
        r == Some(Some(val)),
        get_spec(post, key) is None,
{
    let mk = move_mark() + key;
    assert(!has_prefix(key, self_dot()));
    assert(!has_prefix(mk, self_move())) by {
        assert(mk[0] == '-');
    }
    assert(mk.take(2) =~= move_mark());
    assert(mk.skip(2) =~= key);
    assert(!has_prefix(key, self_dollar()));
}

/// `->&name` hands out, for update, the value last set under `name` when it
/// is not a pointer, and writing through it is what reading `name` then yields.
pub proof fn law_set_then_get_mut(
    pre: Heap,
    key: Seq<char>,
    val: BufValue,
    mid: Heap,
    ok: bool,
    new: BufValue,
    post: Heap,
)
    requires
        has_prefix(key, dollar()),
        !(val is Pointer),
        !(val is PointerMut),
        set_rel(pre, key, val, mid, ok),
        put_rel(mid, mut_ref_mark() + key, new, post),
    ensures
        get_mut_target(mid, mut_ref_mark() + key) == Some(val),
        !(new is Pointer) && !(new is PointerMut) ==> get_spec(post, key) == Some(new),
{
    let mk = mut_ref_mark() + key;
    assert(!has_prefix(key, self_dot()));
    assert(!has_prefix(mk, self_mut_ref())) by {
        assert(mk[0] == '-');
    }
    assert(mk.take(3) =~= mut_ref_mark());
    assert(mk.skip(3) =~= key);
    assert(!has_prefix(key, self_dollar()));
}

impl ExtendsInternal {
    /// The view of a freshly made set of tables.
    pub open spec fn new_view() -> Seq<Map<Seq<char>, u64>> {
        Seq::new(16, |i: int| Map::<Seq<char>, u64>::empty())
    }
}

} // verus!
