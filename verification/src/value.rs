use vstd::prelude::*;
use crate::dict::Dict;
use crate::heap::Heap;
use crate::parser::ModuleMethod;
use crate::text::{decimal, signed_decimal, u64_to_string, i64_to_string};

verus! {

/// A pointer to a string slice: the pointer's address and the text it points at.
#[derive(Debug)]
pub struct StrPointer {
    pub addr: u64,
    pub text: String,
}

/// A pointer to a value: the pointer's address and the value it points at,
/// `None` when the pointer is null.
#[derive(Debug)]
pub struct Ref {
    pub addr: u64,
    pub target: Option<Box<BufValue>>,
}

/// A spawned task: its identity and whether it had finished when last observed.
#[derive(Debug)]
pub struct TaskHandle {
    pub id: u64,
    pub finished: bool,
}

/// A module written in Lead, loaded at run time: its own heap and its methods.
#[derive(Debug)]
pub struct RTCreatedModule {
    pub id: u64,
    pub heap: Heap,
    pub methods: Dict<ModuleMethod>,
}

/// A value that the runtime attaches to a heap slot.
#[derive(Debug)]
pub enum RawRTValue {
    /// A runtime value of a native package, by its handle.
    RT(u64),
    /// An imported package: method name to callback handle.
    PKG(Dict<u64>),
    /// A Lead module.
    RTCM(Box<RTCreatedModule>),
}

/// A value of the Lead language.
#[allow(non_camel_case_types)]
#[derive(Debug)]
pub enum BufValue {
    Int(i64),
    U_Int(u64),
    /// A 64-bit float, by its IEEE-754 bit pattern.
    Float(u64),
    Str(String),
    Bool(bool),
    Array(Vec<BufValue>),
    Object(Vec<(String, BufValue)>),
    Faillable(Result<Box<BufValue>, String>),
    StrPointer(StrPointer),
    Pointer(Ref),
    PointerMut(Ref),
    ArcPointer(Box<BufValue>),
    /// A shared, lockable value, by its handle.
    ArcMutexPointer(u64),
    AsyncTask(TaskHandle),
    /// The sending end of a channel, by its handle.
    Sender(u64),
    /// The receiving end of a channel, by its handle.
    Listener(u64),
    RuntimeRaw(RawRTValue),
}

/// The sign bit of a 64-bit float.
pub open spec fn float_sign_bit() -> int {
    0x8000_0000_0000_0000
}

/// The bit pattern `b` is a NaN.
pub open spec fn float_is_nan(b: u64) -> bool {
    b % 0x8000_0000_0000_0000 > 0x7FF0_0000_0000_0000
}

/// The position of a non-NaN float on the number line, as an integer: the
/// magnitude bits, negated for negative floats. Both zeros map to 0.
pub open spec fn float_key(b: u64) -> int {
    let m = (b % 0x8000_0000_0000_0000) as int;
    if b >= 0x8000_0000_0000_0000 {
        0 - m
    } else {
        m
    }
}

/// `a < b` on 64-bit floats given by their bit patterns.
pub open spec fn float_lt(a: u64, b: u64) -> bool {
    !float_is_nan(a) && !float_is_nan(b) && float_key(a) < float_key(b)
}

/// `a == b` on 64-bit floats given by their bit patterns.
pub open spec fn float_eq(a: u64, b: u64) -> bool {
    !float_is_nan(a) && !float_is_nan(b) && float_key(a) == float_key(b)
}

fn float_parts(b: u64) -> (r: (bool, bool, u64))
    ensures
        r.0 == float_is_nan(b),
        r.1 == (b >= 0x8000_0000_0000_0000),
        r.2 == b % 0x8000_0000_0000_0000,
{
    let m = b % 0x8000_0000_0000_0000;
    (m > 0x7FF0_0000_0000_0000, b >= 0x8000_0000_0000_0000, m)
}

/// `f64::from_bits(a) < f64::from_bits(b)`.
pub fn float_less(a: u64, b: u64) -> (r: bool)
    ensures
        r == float_lt(a, b),
{
    let (na, sa, ma) = float_parts(a);
    let (nb, sb, mb) = float_parts(b);
    if na || nb {
        return false;
    }
    if sa && sb {
        mb < ma
    } else if sa && !sb {
        !(ma == 0 && mb == 0)
    } else if !sa && sb {
        false
    } else {
        ma < mb
    }
}

/// `f64::from_bits(a) == f64::from_bits(b)`.
pub fn float_equal(a: u64, b: u64) -> (r: bool)
    ensures
        r == float_eq(a, b),
{
    let (na, sa, ma) = float_parts(a);
    let (nb, sb, mb) = float_parts(b);
    if na || nb {
        return false;
    }
    if sa == sb {
        ma == mb
    } else {
        ma == 0 && mb == 0
    }
}

/// The name `type_of` gives the kind of a value.
pub open spec fn kind_name(v: BufValue) -> Seq<char>
    decreases v,
{
    match v {
        BufValue::Array(_) => "array"@,
        BufValue::Bool(_) => "bool"@,
        BufValue::Float(_) => "float"@,
        BufValue::Int(_) => "int"@,
        BufValue::U_Int(_) => "u_int"@,
        BufValue::Object(_) => "object"@,
        BufValue::StrPointer(_) => "string"@,
        BufValue::Str(_) => "string"@,
        BufValue::Faillable(res) => match res {
            Ok(t) => "<success "@ + kind_name(*t) + ">"@,
            Err(t) => "<err "@ + t@ + ">"@,
        },
        BufValue::Pointer(r) => match r.target {
            None => "<ptr *ref NULL>"@,
            Some(t) => kind_name(*t),
        },
        BufValue::PointerMut(r) => match r.target {
            None => "<ptr *mut NULL>"@,
            Some(t) => kind_name(*t),
        },
        BufValue::Sender(_) => "<sender ?event>"@,
        BufValue::Listener(_) => "<listener ?event>"@,
        BufValue::AsyncTask(t) => if t.finished {
            "<async recv...\\0>"@
        } else {
            "<async pending...>"@
        },
        BufValue::RuntimeRaw(_) => "<runtime rt>"@,
        BufValue::ArcPointer(a) => kind_name(*a),
        BufValue::ArcMutexPointer(_) => "<mutex *>"@,
    }
}

/// `self > other` as the language compares numbers: integers of either
/// signedness by value, floats as IEEE-754 does; every other pair is unordered.
pub open spec fn gt_spec(a: BufValue, b: BufValue) -> bool {
    match (a, b) {
        (BufValue::Int(x), BufValue::Int(y)) => x > y,
        (BufValue::Int(x), BufValue::U_Int(y)) => x > y,
        (BufValue::U_Int(x), BufValue::U_Int(y)) => x > y,
        (BufValue::U_Int(x), BufValue::Int(y)) => x > y,
        (BufValue::Float(x), BufValue::Float(y)) => float_lt(y, x),
        _ => false,
    }
}

/// `self < other`, as `gt_spec` with the operands swapped.
pub open spec fn lt_spec(a: BufValue, b: BufValue) -> bool {
    match (a, b) {
        (BufValue::Int(x), BufValue::Int(y)) => x < y,
        (BufValue::Int(x), BufValue::U_Int(y)) => x < y,
        (BufValue::U_Int(x), BufValue::U_Int(y)) => x < y,
        (BufValue::U_Int(x), BufValue::Int(y)) => x < y,
        (BufValue::Float(x), BufValue::Float(y)) => float_lt(x, y),
        _ => false,
    }
}

/// Structural equality of values: the same variant with equal contents.
/// Floats compare as IEEE-754 does, pointers by address, objects as maps,
/// and handles to tasks, channels, locks and runtime values never compare equal.
pub open spec fn same(a: BufValue, b: BufValue) -> bool
    decreases a,
{
    match (a, b) {
        (BufValue::Int(x), BufValue::Int(y)) => x == y,
        (BufValue::U_Int(x), BufValue::U_Int(y)) => x == y,
        (BufValue::Float(x), BufValue::Float(y)) => float_eq(x, y),
        (BufValue::Str(x), BufValue::Str(y)) => x@ == y@,
        (BufValue::Bool(x), BufValue::Bool(y)) => x == y,
        (BufValue::Array(x), BufValue::Array(y)) => same_seq(x@, y@),
        (BufValue::Object(x), BufValue::Object(y)) => x@.len() == y@.len() && same_entries(x@, y@),
        (BufValue::Faillable(x), BufValue::Faillable(y)) => match (x, y) {
            (Ok(p), Ok(q)) => same(*p, *q),
            (Err(p), Err(q)) => p@ == q@,
            _ => false,
        },
        (BufValue::StrPointer(x), BufValue::StrPointer(y)) => x.addr == y.addr && x.text@ == y.text@,
        (BufValue::Pointer(x), BufValue::Pointer(y)) => x.addr == y.addr,
        (BufValue::PointerMut(x), BufValue::PointerMut(y)) => x.addr == y.addr,
        (BufValue::ArcPointer(x), BufValue::ArcPointer(y)) => same(*x, *y),
        _ => false,
    }
}

/// Element-wise `same` of two sequences of equal length.
pub open spec fn same_seq(a: Seq<BufValue>, b: Seq<BufValue>) -> bool
    decreases a,
{
    if a.len() != b.len() {
        false
    } else if a.len() == 0 {
        true
    } else {
        same(a[0], b[0]) && same_seq(a.drop_first(), b.drop_first())
    }
}

/// The value of the first entry of `b` with key `k`.
pub open spec fn entry_lookup(b: Seq<(String, BufValue)>, k: Seq<char>) -> Option<BufValue>
    decreases b.len(),
{
    if b.len() == 0 {
        None
    } else if b[0].0@ == k {
        Some(b[0].1)
    } else {
        entry_lookup(b.drop_first(), k)
    }
}

/// Every entry of `a` has a key that `b` maps to a `same` value.
pub open spec fn same_entries(a: Seq<(String, BufValue)>, b: Seq<(String, BufValue)>) -> bool
    decreases a,
{
    if a.len() == 0 {
        true
    } else {
        match entry_lookup(b, a[0].0@) {
            Some(v) => same(a[0].1, v) && same_entries(a.drop_first(), b),
            None => false,
        }
    }
}

/// What `eq` returns: integers of either signedness compare by value,
/// everything else by `same`.
pub open spec fn eq_spec(a: BufValue, b: BufValue) -> bool {
    match (a, b) {
        (BufValue::Int(x), BufValue::U_Int(y)) => x == y,
        (BufValue::U_Int(x), BufValue::Int(y)) => x == y,
        _ => same(a, b),
    }
}

impl StrPointer {
    /// The text that the pointer points at.
    pub fn to_string(&self) -> (r: String)
        ensures
            r@ == self.text@,
    {
        self.text.clone()
    }
}

impl From<String> for BufValue {
    fn from(item: String) -> (r: Self) {
        BufValue::Str(item)
    }
}

impl vstd::std_specs::convert::FromSpecImpl<String> for BufValue {
    open spec fn obeys_from_spec() -> bool {
        true
    }

    open spec fn from_spec(v: String) -> Self {
        BufValue::Str(v)
    }
}

impl From<i64> for BufValue {
    fn from(item: i64) -> (r: Self) {
        BufValue::Int(item)
    }
}

impl vstd::std_specs::convert::FromSpecImpl<i64> for BufValue {
    open spec fn obeys_from_spec() -> bool {
        true
    }

    open spec fn from_spec(v: i64) -> Self {
        BufValue::Int(v)
    }
}

impl From<u64> for BufValue {
    fn from(item: u64) -> (r: Self) {
        BufValue::U_Int(item)
    }
}

impl vstd::std_specs::convert::FromSpecImpl<u64> for BufValue {
    open spec fn obeys_from_spec() -> bool {
        true
    }

    open spec fn from_spec(v: u64) -> Self {
        BufValue::U_Int(v)
    }
}

impl From<bool> for BufValue {
    fn from(item: bool) -> (r: Self) {
        BufValue::Bool(item)
    }
}

impl vstd::std_specs::convert::FromSpecImpl<bool> for BufValue {
    open spec fn obeys_from_spec() -> bool {
        true
    }

    open spec fn from_spec(v: bool) -> Self {
        BufValue::Bool(v)
    }
}

impl From<StrPointer> for BufValue {
    fn from(item: StrPointer) -> (r: Self) {
        BufValue::StrPointer(item)
    }
}

impl vstd::std_specs::convert::FromSpecImpl<StrPointer> for BufValue {
    open spec fn obeys_from_spec() -> bool {
        true
    }

    open spec fn from_spec(v: StrPointer) -> Self {
        BufValue::StrPointer(v)
    }
}

impl From<TaskHandle> for BufValue {
    fn from(item: TaskHandle) -> (r: Self) {
        BufValue::AsyncTask(item)
    }
}

impl vstd::std_specs::convert::FromSpecImpl<TaskHandle> for BufValue {
    open spec fn obeys_from_spec() -> bool {
        true
    }

    open spec fn from_spec(v: TaskHandle) -> Self {
        BufValue::AsyncTask(v)
    }
}

/// `a > b` holds exactly when `b < a` does.
pub proof fn law_gt_is_swapped_lt(a: BufValue, b: BufValue)
    ensures
        gt_spec(a, b) == lt_spec(b, a),
{
}

/// No value is less than itself.
pub proof fn law_lt_irreflexive(a: BufValue)
    ensures
        !lt_spec(a, a),
{
}

/// Two values are never each less than the other.
pub proof fn law_lt_asymmetric(a: BufValue, b: BufValue)
    ensures
        lt_spec(a, b) ==> !lt_spec(b, a),
{
}

/// `<` is transitive, across integers of either signedness and among floats.
pub proof fn law_lt_transitive(a: BufValue, b: BufValue, c: BufValue)
    ensures
        lt_spec(a, b) && lt_spec(b, c) ==> lt_spec(a, c),
{
}

/// Integers are ordered by their value, whatever their signedness: a
/// negative number is below every non-negative one, and `<` and `>` agree
/// with the order of the numbers.
pub proof fn law_integers_ordered_by_value(x: i64, y: i64, u: u64, v: u64)
    ensures
        lt_spec(BufValue::Int(x), BufValue::Int(y)) == (x < y),
        lt_spec(BufValue::Int(x), BufValue::U_Int(u)) == (x < u),
        lt_spec(BufValue::U_Int(u), BufValue::Int(x)) == (u < x),
        lt_spec(BufValue::U_Int(u), BufValue::U_Int(v)) == (u < v),
        gt_spec(BufValue::Int(x), BufValue::Int(y)) == (x > y),
        gt_spec(BufValue::Int(x), BufValue::U_Int(u)) == (x > u),
        gt_spec(BufValue::U_Int(u), BufValue::Int(x)) == (u > x),
        gt_spec(BufValue::U_Int(u), BufValue::U_Int(v)) == (u > v),
        x < 0 ==> lt_spec(BufValue::Int(x), BufValue::U_Int(u)),
{
}

/// Equality compares contents: two texts are equal exactly when they are
/// the same text, integers of either signedness exactly when they are the
/// same number, and booleans exactly when they are the same.
pub proof fn law_equality_compares_contents(s: String, t: String, x: i64, y: i64, u: u64, v: u64, p: bool, q: bool)
    ensures
        eq_spec(BufValue::Str(s), BufValue::Str(t)) == (s@ == t@),
        eq_spec(BufValue::Int(x), BufValue::Int(y)) == (x == y),
        eq_spec(BufValue::Int(x), BufValue::U_Int(u)) == (x == u),
        eq_spec(BufValue::U_Int(u), BufValue::Int(x)) == (u == x),
        eq_spec(BufValue::U_Int(u), BufValue::U_Int(v)) == (u == v),
        eq_spec(BufValue::Bool(p), BufValue::Bool(q)) == (p == q),
        eq_spec(BufValue::Str(s), BufValue::Int(x)) == false,
{
}

/// Each plain kind of value is named by its own word: `array`, `bool`,
/// `float`, `int`, `u_int`, `object` and `string` (for texts and pointers to
/// texts alike), no two kinds sharing one.
pub proof fn law_kind_names(
    a: Vec<BufValue>,
    b: bool,
    f: u64,
    i: i64,
    u: u64,
    o: Vec<(String, BufValue)>,
    s: String,
    sp: StrPointer,
)
    ensures
        kind_name(BufValue::Array(a)) == seq!['a', 'r', 'r', 'a', 'y'],
        kind_name(BufValue::Bool(b)) == seq!['b', 'o', 'o', 'l'],
        kind_name(BufValue::Float(f)) == seq!['f', 'l', 'o', 'a', 't'],
        kind_name(BufValue::Int(i)) == seq!['i', 'n', 't'],
        kind_name(BufValue::U_Int(u)) == seq!['u', '_', 'i', 'n', 't'],
        kind_name(BufValue::Object(o)) == seq!['o', 'b', 'j', 'e', 'c', 't'],
        kind_name(BufValue::Str(s)) == seq!['s', 't', 'r', 'i', 'n', 'g'],
        kind_name(BufValue::StrPointer(sp)) == seq!['s', 't', 'r', 'i', 'n', 'g'],
        kind_name(BufValue::Object(o)) != kind_name(BufValue::Array(a)),
        kind_name(BufValue::Int(i)) != kind_name(BufValue::U_Int(u)),
        kind_name(BufValue::Str(s)) != kind_name(BufValue::Object(o)),
{
    reveal_strlit("array");
    reveal_strlit("bool");
    reveal_strlit("float");
    reveal_strlit("int");
    reveal_strlit("u_int");
    reveal_strlit("object");
    reveal_strlit("string");
    assert("array"@ =~= seq!['a', 'r', 'r', 'a', 'y']);
    assert("bool"@ =~= seq!['b', 'o', 'o', 'l']);
    assert("float"@ =~= seq!['f', 'l', 'o', 'a', 't']);
    assert("int"@ =~= seq!['i', 'n', 't']);
    assert("u_int"@ =~= seq!['u', '_', 'i', 'n', 't']);
    assert("object"@ =~= seq!['o', 'b', 'j', 'e', 'c', 't']);
    assert("string"@ =~= seq!['s', 't', 'r', 'i', 'n', 'g']);
    assert(seq!['o', 'b', 'j', 'e', 'c', 't'] != seq!['a', 'r', 'r', 'a', 'y']) by {
        assert(seq!['o', 'b', 'j', 'e', 'c', 't'].len() != seq!['a', 'r', 'r', 'a', 'y'].len());
    }
    assert(seq!['i', 'n', 't'] != seq!['u', '_', 'i', 'n', 't']) by {
        assert(seq!['i', 'n', 't'].len() != seq!['u', '_', 'i', 'n', 't'].len());
    }
    assert(seq!['s', 't', 'r', 'i', 'n', 'g'] != seq!['o', 'b', 'j', 'e', 'c', 't']) by {
        assert(seq!['s', 't', 'r', 'i', 'n', 'g'][0] != seq!['o', 'b', 'j', 'e', 'c', 't'][0]);
    }
}

/// A NaN is neither less nor greater than any value, and equals none.
pub proof fn law_nan_unordered(x: u64, v: BufValue)
    requires
        float_is_nan(x),
    ensures
        !lt_spec(BufValue::Float(x), v),
        !lt_spec(v, BufValue::Float(x)),
        !gt_spec(BufValue::Float(x), v),
        !eq_spec(BufValue::Float(x), v),
        !eq_spec(v, BufValue::Float(x)),
{
}

/// A piece of the text that `display` shows for a value. Floats and objects
/// are handed over for formatting as Rust formats them (`f64`'s `Display`,
/// and the pretty `Debug` form of an object).
pub enum DisplayPart<'a> {
    Text(String),
    Float(u64),
    Object(&'a Vec<(String, BufValue)>),
}

/// `DisplayPart` as mathematical values.
pub enum Shown {
    Text(Seq<char>),
    Float(u64),
    Object(Seq<(String, BufValue)>),
}

impl<'a> DisplayPart<'a> {
    pub open spec fn view(self) -> Shown {
        match self {
            DisplayPart::Text(t) => Shown::Text(t@),
            DisplayPart::Float(f) => Shown::Float(f),
            DisplayPart::Object(o) => Shown::Object(o@),
        }
    }
}

/// The parts as mathematical values.
pub open spec fn parts_view<'a>(v: Seq<DisplayPart<'a>>) -> Seq<Shown> {
    v.map_values(|p: DisplayPart<'a>| p.view())
}

/// What `display` shows for a value: arrays as their elements joined with
/// `, `, numbers in decimal, booleans as `true`/`false`, strings as their
/// text, and every other value as the name of its kind.
pub open spec fn shown(v: BufValue) -> Seq<Shown>
    decreases v,
{
    match v {
        BufValue::Array(c) => shown_join(c@),
        BufValue::Bool(a) => seq![Shown::Text(if a { "true"@ } else { "false"@ })],
        BufValue::Float(f) => seq![Shown::Float(f)],
        BufValue::Int(i) => seq![Shown::Text(signed_decimal(i as int))],
        BufValue::U_Int(u) => seq![Shown::Text(decimal(u as nat))],
        BufValue::Object(c) => seq![Shown::Object(c@)],
        BufValue::Str(c) => seq![Shown::Text(c@)],
        BufValue::StrPointer(c) => seq![Shown::Text(c.text@)],
        e => seq![Shown::Text(kind_name(e))],
    }
}

/// The shown elements of `s` with `, ` between them.
pub open spec fn shown_join(s: Seq<BufValue>) -> Seq<Shown>
    decreases s,
{
    if s.len() == 0 {
        Seq::empty()
    } else if s.len() == 1 {
        shown(s[0])
    } else {
        shown_join(s.drop_last()) + seq![Shown::Text(", "@)] + shown(s.last())
    }
}

fn lit(s: &str) -> (r: String)
    ensures
        r@ == s@,
{
    String::from_str(s)
}

fn entry_find<'a>(b: &'a Vec<(String, BufValue)>, k: &String) -> (r: Option<&'a BufValue>)
    ensures
        r matches Some(v) ==> entry_lookup(b@, k@) == Some(*v),
        r is None ==> entry_lookup(b@, k@) is None,
{
    let mut i: usize = 0;
    proof {
        assert(b@.skip(0) =~= b@);
    }
    while i < b.len()
        invariant
            i <= b@.len(),
            entry_lookup(b@, k@) == entry_lookup(b@.skip(i as int), k@),
        decreases b@.len() - i,
    {
        proof {
            assert(b@.skip(i as int).drop_first() =~= b@.skip(i + 1));
        }
        if b[i].0.eq(k) {
            return Some(&b[i].1);
        }
        i = i + 1;
    }
    None
}

impl BufValue {
    /// The name of the kind of this value.
    pub fn type_of(&self) -> (r: String)
        ensures
            r@ == kind_name(*self),
        decreases self,
    {
        match self {
            BufValue::Array(_) => lit("array"),
            BufValue::Bool(_) => lit("bool"),
            BufValue::Float(_) => lit("float"),
            BufValue::Int(_) => lit("int"),
            BufValue::U_Int(_) => lit("u_int"),
            BufValue::Object(_) => lit("object"),
            BufValue::StrPointer(_) => lit("string"),
            BufValue::Str(_) => lit("string"),
            BufValue::Faillable(res) => match res {
                Ok(t) => {
                    let inner = t.type_of();
                    lit("<success ").concat(inner.as_str()).concat(">")
                },
                Err(t) => lit("<err ").concat(t.as_str()).concat(">"),
            },
            BufValue::Pointer(r) => match &r.target {
                None => lit("<ptr *ref NULL>"),
                Some(t) => t.type_of(),
            },
            BufValue::PointerMut(r) => match &r.target {
                None => lit("<ptr *mut NULL>"),
                Some(t) => t.type_of(),
            },
            BufValue::Sender(_) => lit("<sender ?event>"),
            BufValue::Listener(_) => lit("<listener ?event>"),
            BufValue::AsyncTask(t) => {
                if t.finished {
                    lit("<async recv...\\0>")
                } else {
                    lit("<async pending...>")
                }
            },
            BufValue::RuntimeRaw(_) => lit("<runtime rt>"),
            BufValue::ArcPointer(a) => a.type_of(),
            BufValue::ArcMutexPointer(_) => lit("<mutex *>"),
        }
    }

    /// The text shown for this value, in parts.
    #[verifier::loop_isolation(false)]
    pub fn display(&self) -> (r: Vec<DisplayPart<'_>>)
        ensures
            parts_view(r@) == shown(*self),
        decreases self,
    {
        let mut out: Vec<DisplayPart<'_>> = Vec::new();
        match self {
            BufValue::Array(c) => {
                let mut k: usize = 0;
                proof {
                    assert(c@.take(0) =~= Seq::<BufValue>::empty());
                    assert(parts_view(out@) =~= Seq::<Shown>::empty());
                }
                while k < c.len()
                    invariant
                        k <= c@.len(),
                        parts_view(out@) == shown_join(c@.take(k as int)),
                    decreases c@.len() - k,
                {
                    proof {
                        assert(decreases_to!(*self => *c));
                        assert(decreases_to!(*c => c@));
                        assert(decreases_to!(c@ => c@[k as int]));
                    }
                    let ghost before = parts_view(out@);
                    if k > 0 {
                        out.push(DisplayPart::Text(lit(", ")));
                    }
                    let ghost mid = out@;
                    let mut p = c[k].display();
                    let ghost pv = p@;
                    out.append(&mut p);
                    proof {
                        let t = c@.take(k + 1);
                        assert(t.drop_last() =~= c@.take(k as int));
                        assert(t.last() == c@[k as int]);
                        assert(parts_view(out@) =~= parts_view(mid) + parts_view(pv));
                        if k > 0 {
                            assert(parts_view(mid) =~= before + seq![Shown::Text(", "@)]);
                        } else {
                            assert(parts_view(mid) =~= Seq::<Shown>::empty());
                        }
                    }
                    k = k + 1;
                }
                proof {
                    assert(c@.take(c@.len() as int) =~= c@);
                }
            },
            BufValue::Bool(a) => {
                out.push(DisplayPart::Text(if *a { lit("true") } else { lit("false") }));
            },
            BufValue::Float(f) => {
                out.push(DisplayPart::Float(*f));
            },
            BufValue::Int(i) => {
                out.push(DisplayPart::Text(i64_to_string(*i)));
            },
            BufValue::U_Int(u) => {
                out.push(DisplayPart::Text(u64_to_string(*u)));
            },
            BufValue::Object(c) => {
                out.push(DisplayPart::Object(c));
            },
            BufValue::Str(c) => {
                out.push(DisplayPart::Text(c.clone()));
            },
            BufValue::StrPointer(c) => {
                out.push(DisplayPart::Text(c.text.clone()));
            },
            e => {
                out.push(DisplayPart::Text(e.type_of()));
            },
        }
        proof {
            if !(*self is Array) {
                assert(parts_view(out@) =~= shown(*self));
            }
        }
        out
    }

    /// The elements of an array value, for update in place.
    pub fn get_vec_mut(&mut self) -> (r: Option<&mut Vec<BufValue>>)
        ensures
            match *old(self) {
                BufValue::Array(a) => r matches Some(v) && *v == a && *final(self) == BufValue::Array(
                    *final(v),
                ),
                _ => r is None && *final(self) == *old(self),
            },
    {
        match self {
            BufValue::Array(a) => Some(a),
            _ => None,
        }
    }

    /// Whether this value is greater than `other`.
    pub fn gt(&self, other: &BufValue) -> (r: bool)
        ensures
            r == gt_spec(*self, *other),
    {
        match (self, other) {
            (BufValue::Int(a), BufValue::Int(b)) => *a > *b,
            (BufValue::Int(a), BufValue::U_Int(b)) => (*a as i128) > (*b as i128),
            (BufValue::U_Int(a), BufValue::U_Int(b)) => *a > *b,
            (BufValue::U_Int(a), BufValue::Int(b)) => (*a as i128) > (*b as i128),
            (BufValue::Float(a), BufValue::Float(b)) => float_less(*b, *a),
            _ => false,
        }
    }

    /// Whether this value is less than `other`.
    pub fn lt(&self, other: &BufValue) -> (r: bool)
        ensures
            r == lt_spec(*self, *other),
    {
        match (self, other) {
            (BufValue::Int(a), BufValue::Int(b)) => *a < *b,
            (BufValue::Int(a), BufValue::U_Int(b)) => (*a as i128) < (*b as i128),
            (BufValue::U_Int(a), BufValue::U_Int(b)) => *a < *b,
            (BufValue::U_Int(a), BufValue::Int(b)) => (*a as i128) < (*b as i128),
            (BufValue::Float(a), BufValue::Float(b)) => float_less(*a, *b),
            _ => false,
        }
    }

    /// Whether this value equals `other`.
    pub fn eq(&self, other: &BufValue) -> (r: bool)
        ensures
            r == eq_spec(*self, *other),
    {
        match (self, other) {
            (BufValue::Int(a), BufValue::U_Int(b)) => (*a as i128) == (*b as i128),
            (BufValue::U_Int(a), BufValue::Int(b)) => (*a as i128) == (*b as i128),
            _ => self.same_as(other),
        }
    }

    /// Structural equality, as `same` states it.
    #[verifier::loop_isolation(false)]
    pub fn same_as(&self, other: &BufValue) -> (r: bool)
        ensures
            r == same(*self, *other),
        decreases self,
    {
        match (self, other) {
            (BufValue::Int(x), BufValue::Int(y)) => *x == *y,
            (BufValue::U_Int(x), BufValue::U_Int(y)) => *x == *y,
            (BufValue::Float(x), BufValue::Float(y)) => float_equal(*x, *y),
            (BufValue::Str(x), BufValue::Str(y)) => x.eq(y),
            (BufValue::Bool(x), BufValue::Bool(y)) => *x == *y,
            (BufValue::Array(x), BufValue::Array(y)) => {
                if x.len() != y.len() {
                    assert(!same_seq(x@, y@));
                    return false;
                }
                let mut i: usize = 0;
                proof {
                    assert(x@.skip(0) =~= x@);
                    assert(y@.skip(0) =~= y@);
                }
                while i < x.len()
                    invariant
                        x@.len() == y@.len(),
                        i <= x@.len(),
                        same_seq(x@, y@) == same_seq(x@.skip(i as int), y@.skip(i as int)),
                    decreases x@.len() - i,
                {
                    proof {
                        assert(decreases_to!(*self => *x));
                        assert(decreases_to!(*x => x@));
                        assert(decreases_to!(x@ => x@[i as int]));
                    }
                    let e = x[i].same_as(&y[i]);
                    proof {
                        assert(x@.skip(i as int).drop_first() =~= x@.skip(i + 1));
                        assert(y@.skip(i as int).drop_first() =~= y@.skip(i + 1));
                    }
                    if !e {
                        return false;
                    }
                    i = i + 1;
                }
                true
            },
            (BufValue::Object(x), BufValue::Object(y)) => {
                if x.len() != y.len() {
                    return false;
                }
                let mut i: usize = 0;
                proof {
                    assert(x@.skip(0) =~= x@);
                }
                while i < x.len()
                    invariant
                        i <= x@.len(),
                        same_entries(x@, y@) == same_entries(x@.skip(i as int), y@),
                    decreases x@.len() - i,
                {
                    proof {
                        assert(x@.skip(i as int).drop_first() =~= x@.skip(i + 1));
                    }
                    match entry_find(y, &x[i].0) {
                        Some(v) => {
                            proof {
                                assert(decreases_to!(*self => *x));
                                assert(decreases_to!(*x => x@));
                                assert(decreases_to!(x@ => x@[i as int]));
                                assert(decreases_to!(x@[i as int] => x@[i as int].1));
                            }
                            if !x[i].1.same_as(v) {
                                return false;
                            }
                        },
                        None => {
                            return false;
                        },
                    }
                    i = i + 1;
                }
                true
            },
            (BufValue::Faillable(x), BufValue::Faillable(y)) => match (x, y) {
                (Ok(p), Ok(q)) => p.same_as(q),
                (Err(p), Err(q)) => p.eq(q),
                _ => false,
            },
            (BufValue::StrPointer(x), BufValue::StrPointer(y)) => x.addr == y.addr && x.text.eq(
                &y.text,
            ),
            (BufValue::Pointer(x), BufValue::Pointer(y)) => x.addr == y.addr,
            (BufValue::PointerMut(x), BufValue::PointerMut(y)) => x.addr == y.addr,
            (BufValue::ArcPointer(x), BufValue::ArcPointer(y)) => x.same_as(y),
            _ => false,
        }
    }
}

} // verus!
