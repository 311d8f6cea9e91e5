use vstd::prelude::*;
use crate::text::chars_of;
use vstd::std_specs::cmp::PartialEqSpecImpl;

verus! {

broadcast use vstd::std_specs::vec::group_vec_axioms;

/// The mathematical model of a CBOR data item.
pub enum Cbor {
    Integer(int),
    Bytes(Seq<u8>),
    /// A float, held by its IEEE 754 bit pattern.
    Float(u64),
    Text(Seq<char>),
    Bool(bool),
    Null,
    Tag(u64, Box<Cbor>),
    Array(Seq<Cbor>),
    Mapping(Seq<(Cbor, Cbor)>),
}

/// A CBOR data item: the data of every item.
#[derive(Debug)]
pub enum CborValue {
    Integer(i128),
    Bytes(Vec<u8>),
    /// A float, held by its IEEE 754 bit pattern.
    Float(u64),
    Text(String),
    Bool(bool),
    Null,
    Tag(u64, Box<CborValue>),
    Array(Vec<CborValue>),
    Mapping(Vec<(CborValue, CborValue)>),
}

pub open spec fn model(v: CborValue) -> Cbor
    decreases v,
{
    match v {
        CborValue::Integer(i) => Cbor::Integer(i as int),
        CborValue::Bytes(b) => Cbor::Bytes(b@),
        CborValue::Float(f) => Cbor::Float(f),
        CborValue::Text(s) => Cbor::Text(s@),
        CborValue::Bool(b) => Cbor::Bool(b),
        CborValue::Null => Cbor::Null,
        CborValue::Tag(t, b) => Cbor::Tag(t, Box::new(model(*b))),
        CborValue::Array(a) => Cbor::Array(models(a@)),
        CborValue::Mapping(m) => Cbor::Mapping(entry_models(m@)),
    }
}

pub open spec fn models(s: Seq<CborValue>) -> Seq<Cbor>
    decreases s,
{
    if s.len() == 0 {
        Seq::empty()
    } else {
        models(s.drop_last()).push(model(s.last()))
    }
}

pub open spec fn entry_models(s: Seq<(CborValue, CborValue)>) -> Seq<(Cbor, Cbor)>
    decreases s,
{
    if s.len() == 0 {
        Seq::empty()
    } else {
        entry_models(s.drop_last()).push((model(s.last().0), model(s.last().1)))
    }
}

impl View for CborValue {
    type V = Cbor;

    open spec fn view(&self) -> Cbor {
        model(*self)
    }
}

pub proof fn lemma_models(s: Seq<CborValue>)
    ensures
        models(s).len() == s.len(),
        forall|i: int| 0 <= i < s.len() ==> #[trigger] models(s)[i] == model(s[i]),
    decreases s.len(),
{
    if s.len() > 0 {
        lemma_models(s.drop_last());
    }
}


impl CborValue {
    /// A deep copy of this value.
    pub fn copy(&self) -> (r: CborValue)
        ensures
            r@ == self@,
        decreases self,
    {
        match self {
            CborValue::Integer(i) => CborValue::Integer(*i),
            CborValue::Bytes(b) => CborValue::Bytes(copy_bytes(b)),
            CborValue::Float(f) => CborValue::Float(*f),
            CborValue::Text(s) => CborValue::Text(s.clone()),
            CborValue::Bool(b) => CborValue::Bool(*b),
            CborValue::Null => CborValue::Null,
            CborValue::Tag(t, b) => CborValue::Tag(*t, Box::new((**b).copy())),
            CborValue::Array(a) => CborValue::Array(copy_values(a)),
            CborValue::Mapping(m) => CborValue::Mapping(copy_entries(m)),
        }
    }
}

fn copy_bytes(b: &Vec<u8>) -> (r: Vec<u8>)
    ensures
        r@ == b@,
{
    let mut r: Vec<u8> = Vec::new();
    let mut i: usize = 0;
    while i < b.len()
        invariant
            i <= b.len(),
            r@ == b@.subrange(0, i as int),
        decreases b.len() - i,
    {
        r.push(b[i]);
        i = i + 1;
    }
    assert(r@ =~= b@);
    r
}

pub(crate) fn copy_values(a: &Vec<CborValue>) -> (r: Vec<CborValue>)
    ensures
        models(r@) == models(a@),
    decreases a,
{
    let mut r: Vec<CborValue> = Vec::new();
    let mut i: usize = 0;
    while i < a.len()
        invariant
            i <= a.len(),
            r@.len() == i,
            forall|j: int| 0 <= j < i ==> #[trigger] model(r@[j]) == model(a@[j]),
        decreases a.len() - i,
    {
        proof {
            assert(decreases_to!(a => a@[i as int]));
        }
        let c = a[i].copy();
        r.push(c);
        i = i + 1;
    }
    proof {
        lemma_models(r@);
        lemma_models(a@);
        assert(models(r@) =~= models(a@));
    }
    r
}

pub(crate) fn copy_entries(m: &Vec<(CborValue, CborValue)>) -> (r: Vec<(CborValue, CborValue)>)
    ensures
        entry_models(r@) == entry_models(m@),
    decreases m,
{
    let mut r: Vec<(CborValue, CborValue)> = Vec::new();
    let mut i: usize = 0;
    while i < m.len()
        invariant
            i <= m.len(),
            r@.len() == i,
            forall|j: int|
                0 <= j < i ==> #[trigger] model(r@[j].0) == model(m@[j].0) && model(r@[j].1)
                    == model(m@[j].1),
        decreases m.len() - i,
    {
        proof {
            assert(decreases_to!(m => m@[i as int]));
        }
        let k = m[i].0.copy();
        let v = m[i].1.copy();
        r.push((k, v));
        i = i + 1;
    }
    proof {
        lemma_entry_models(r@);
        lemma_entry_models(m@);
        assert(entry_models(r@) =~= entry_models(m@));
    }
    r
}

pub proof fn lemma_entry_models(s: Seq<(CborValue, CborValue)>)
    ensures
        entry_models(s).len() == s.len(),
        forall|i: int|
            0 <= i < s.len() ==> #[trigger] entry_models(s)[i] == (model(s[i].0), model(s[i].1)),
    decreases s.len(),
{
    if s.len() > 0 {
        lemma_entry_models(s.drop_last());
    }
}

impl Clone for CborValue {
    fn clone(&self) -> (r: Self)
        ensures
            r@ == self@,
    {
        self.copy()
    }
}



/// The bits of the float that `==` on floats takes `x` for: every zero is
/// the positive zero, every NaN the same NaN.
pub open spec fn canon_float(x: u64) -> u64 {
    if is_nan_bits(x) {
        0x7FF8_0000_0000_0000
    } else if x == 0x8000_0000_0000_0000 {
        0
    } else {
        x
    }
}

/// `v` with every float put in the form of `canon_float`.
pub open spec fn canon(v: Cbor) -> Cbor
    decreases v,
{
    match v {
        Cbor::Float(x) => Cbor::Float(canon_float(x)),
        Cbor::Tag(t, b) => Cbor::Tag(t, Box::new(canon(*b))),
        Cbor::Array(s) => Cbor::Array(canon_seq(s)),
        Cbor::Mapping(m) => Cbor::Mapping(canon_entries(m)),
        _ => v,
    }
}

pub open spec fn canon_seq(s: Seq<Cbor>) -> Seq<Cbor>
    decreases s,
{
    if s.len() == 0 {
        Seq::empty()
    } else {
        canon_seq(s.drop_last()).push(canon(s.last()))
    }
}

pub open spec fn canon_entries(m: Seq<(Cbor, Cbor)>) -> Seq<(Cbor, Cbor)>
    decreases m,
{
    if m.len() == 0 {
        Seq::empty()
    } else {
        canon_entries(m.drop_last()).push((canon(m.last().0), canon(m.last().1)))
    }
}

/// Whether a NaN occurs in `v`.
pub open spec fn has_nan(v: Cbor) -> bool
    decreases v,
{
    match v {
        Cbor::Float(x) => is_nan_bits(x),
        Cbor::Tag(_, b) => has_nan(*b),
        Cbor::Array(s) => has_nan_seq(s),
        Cbor::Mapping(m) => has_nan_entries(m),
        _ => false,
    }
}

pub open spec fn has_nan_seq(s: Seq<Cbor>) -> bool
    decreases s,
{
    if s.len() == 0 {
        false
    } else {
        has_nan_seq(s.drop_last()) || has_nan(s.last())
    }
}

pub open spec fn has_nan_entries(m: Seq<(Cbor, Cbor)>) -> bool
    decreases m,
{
    if m.len() == 0 {
        false
    } else {
        has_nan_entries(m.drop_last()) || has_nan(m.last().0) || has_nan(m.last().1)
    }
}

/// Whether `==` on CBOR values holds of `a` and `b`: they have the same
/// structure, and their floats are equal as numbers are, every zero equal to
/// every zero and a NaN equal to nothing.
pub open spec fn cbor_eq(a: Cbor, b: Cbor) -> bool {
    canon(a) == canon(b) && !has_nan(a)
}

pub proof fn lemma_canon_seq(s: Seq<Cbor>)
    ensures
        canon_seq(s).len() == s.len(),
        forall|i: int| 0 <= i < s.len() ==> #[trigger] canon_seq(s)[i] == canon(s[i]),
        forall|i: int| 0 <= i < s.len() && #[trigger] has_nan(s[i]) ==> has_nan_seq(s),
        has_nan_seq(s) ==> exists|i: int| 0 <= i < s.len() && #[trigger] has_nan(s[i]),
    decreases s.len(),
{
    if s.len() > 0 {
        let p = s.drop_last();
        lemma_canon_seq(p);
        assert forall|i: int| 0 <= i < s.len() && #[trigger] has_nan(s[i]) implies has_nan_seq(s) by {
            if i < s.len() - 1 {
                assert(p[i] == s[i]);
                assert(has_nan(p[i]));
            }
        }
        if has_nan_seq(s) {
            if has_nan_seq(p) {
                let k = choose|k: int| 0 <= k < p.len() && #[trigger] has_nan(p[k]);
                assert(p[k] == s[k]);
                assert(has_nan(s[k]));
            } else {
                assert(has_nan(s[s.len() - 1]));
            }
        }
    }
}

pub proof fn lemma_canon_entries(m: Seq<(Cbor, Cbor)>)
    ensures
        canon_entries(m).len() == m.len(),
        forall|i: int| 0 <= i < m.len() ==> #[trigger] canon_entries(m)[i] == (canon(m[i].0), canon(m[i].1)),
        forall|i: int| 0 <= i < m.len() && (has_nan(#[trigger] m[i].0) || has_nan(m[i].1)) ==> has_nan_entries(m),
        has_nan_entries(m) ==> exists|i: int| 0 <= i < m.len() && (has_nan(#[trigger] m[i].0) || has_nan(m[i].1)),
    decreases m.len(),
{
    if m.len() > 0 {
        let p = m.drop_last();
        lemma_canon_entries(p);
        assert forall|i: int| 0 <= i < m.len() && (has_nan(#[trigger] m[i].0) || has_nan(m[i].1)) implies has_nan_entries(m) by {
            if i < m.len() - 1 {
                assert(p[i] == m[i]);
                assert(has_nan(p[i].0) || has_nan(p[i].1));
            }
        }
        if has_nan_entries(m) {
            if has_nan_entries(p) {
                let k = choose|k: int| 0 <= k < p.len() && (has_nan(#[trigger] p[k].0) || has_nan(p[k].1));
                assert(p[k] == m[k]);
                assert(has_nan(m[k].0) || has_nan(m[k].1));
            } else {
                assert(has_nan(m[m.len() - 1].0) || has_nan(m[m.len() - 1].1));
            }
        }
    }
}

/// A NaN occurs in the form `canon` gives exactly where it occurs in the value.
pub proof fn lemma_canon_nan(v: Cbor)
    ensures
        has_nan(canon(v)) == has_nan(v),
    decreases v,
{
    match v {
        Cbor::Tag(_, b) => {
            lemma_canon_nan(*b);
        },
        Cbor::Array(s) => {
            let c = canon_seq(s);
            lemma_canon_seq(s);
            lemma_canon_seq(c);
            if has_nan_seq(s) {
                let i = choose|i: int| 0 <= i < s.len() && #[trigger] has_nan(s[i]);
                lemma_canon_nan(s[i]);
                assert(has_nan(c[i]));
            }
            if has_nan_seq(c) {
                let i = choose|i: int| 0 <= i < c.len() && #[trigger] has_nan(c[i]);
                lemma_canon_nan(s[i]);
                assert(has_nan(s[i]));
            }
        },
        Cbor::Mapping(m) => {
            let c = canon_entries(m);
            lemma_canon_entries(m);
            lemma_canon_entries(c);
            if has_nan_entries(m) {
                let i = choose|i: int| 0 <= i < m.len() && (has_nan(#[trigger] m[i].0) || has_nan(m[i].1));
                assert(decreases_to!(m => m[i]));
                assert(decreases_to!(m[i] => m[i].0));
                assert(decreases_to!(m[i] => m[i].1));
                lemma_canon_nan(m[i].0);
                lemma_canon_nan(m[i].1);
                assert(c[i] == (canon(m[i].0), canon(m[i].1)));
                assert(has_nan(c[i].0) || has_nan(c[i].1));
            }
            if has_nan_entries(c) {
                let i = choose|i: int| 0 <= i < c.len() && (has_nan(#[trigger] c[i].0) || has_nan(c[i].1));
                assert(0 <= i < m.len());
                assert(decreases_to!(m => m[i]));
                assert(decreases_to!(m[i] => m[i].0));
                assert(decreases_to!(m[i] => m[i].1));
                lemma_canon_nan(m[i].0);
                lemma_canon_nan(m[i].1);
                assert(c[i] == (canon(m[i].0), canon(m[i].1)));
                assert(has_nan(m[i].0) || has_nan(m[i].1));
            }
        },
        _ => {},
    }
}

/// `==` on CBOR values is symmetric and transitive.
pub proof fn lemma_cbor_eq(a: Cbor, b: Cbor, c: Cbor)
    ensures
        cbor_eq(a, b) ==> cbor_eq(b, a),
        cbor_eq(a, b) && cbor_eq(b, c) ==> cbor_eq(a, c),
        cbor_eq(a, b) ==> !has_nan(b),
{
    lemma_canon_nan(a);
    lemma_canon_nan(b);
}

/// The outcome of comparing two values: the derived partial order of a CBOR
/// item, where `Unordered` stands for two values that cannot be ordered.
#[derive(Debug, Clone, Copy, PartialEq, Eq, Structural)]
pub enum Order {
    Less,
    Equal,
    Greater,
    Unordered,
}

/// Rank of a variant in the order of declaration.
pub open spec fn rank(v: Cbor) -> int {
    match v {
        Cbor::Integer(_) => 0,
        Cbor::Bytes(_) => 1,
        Cbor::Float(_) => 2,
        Cbor::Text(_) => 3,
        Cbor::Bool(_) => 4,
        Cbor::Null => 5,
        Cbor::Tag(_, _) => 6,
        Cbor::Array(_) => 7,
        Cbor::Mapping(_) => 8,
    }
}

pub open spec fn int_order(a: int, b: int) -> Order {
    if a < b {
        Order::Less
    } else if a == b {
        Order::Equal
    } else {
        Order::Greater
    }
}

/// The bit pattern of a NaN.
pub open spec fn is_nan_bits(x: u64) -> bool {
    x % 0x8000_0000_0000_0000 > 0x7FF0_0000_0000_0000
}

/// A number that orders the non-NaN floats as their values are ordered.
pub open spec fn float_key(x: u64) -> int {
    if x >= 0x8000_0000_0000_0000 {
        -(x - 0x8000_0000_0000_0000)
    } else {
        x as int
    }
}

/// The IEEE 754 partial order of two floats given by their bits.
pub open spec fn float_order(a: u64, b: u64) -> Order {
    if is_nan_bits(a) || is_nan_bits(b) {
        Order::Unordered
    } else {
        int_order(float_key(a), float_key(b))
    }
}

/// Lexicographic order of byte strings.
pub open spec fn bytes_order(a: Seq<u8>, b: Seq<u8>) -> Order
    decreases a.len(),
{
    if a.len() == 0 || b.len() == 0 {
        int_order(a.len() as int, b.len() as int)
    } else if a[0] != b[0] {
        int_order(a[0] as int, b[0] as int)
    } else {
        bytes_order(a.drop_first(), b.drop_first())
    }
}

/// Lexicographic order of texts by code point (the order of their UTF-8 bytes).
pub open spec fn text_order(a: Seq<char>, b: Seq<char>) -> Order
    decreases a.len(),
{
    if a.len() == 0 || b.len() == 0 {
        int_order(a.len() as int, b.len() as int)
    } else if a[0] != b[0] {
        int_order(a[0] as int, b[0] as int)
    } else {
        text_order(a.drop_first(), b.drop_first())
    }
}

/// The partial order of two CBOR items: first by variant, then by contents,
/// sequences lexicographically.
pub open spec fn cbor_order(a: Cbor, b: Cbor) -> Order
    decreases a,
{
    if rank(a) != rank(b) {
        int_order(rank(a), rank(b))
    } else {
        match (a, b) {
            (Cbor::Integer(x), Cbor::Integer(y)) => int_order(x, y),
            (Cbor::Bytes(x), Cbor::Bytes(y)) => bytes_order(x, y),
            (Cbor::Float(x), Cbor::Float(y)) => float_order(x, y),
            (Cbor::Text(x), Cbor::Text(y)) => text_order(x, y),
            (Cbor::Bool(x), Cbor::Bool(y)) => int_order(if x { 1 } else { 0 }, if y { 1 } else { 0 }),
            (Cbor::Tag(t, x), Cbor::Tag(u, y)) => if t != u {
                int_order(t as int, u as int)
            } else {
                cbor_order(*x, *y)
            },
            (Cbor::Array(x), Cbor::Array(y)) => seq_order(x, y),
            (Cbor::Mapping(x), Cbor::Mapping(y)) => entries_order(x, y),
            _ => Order::Equal,
        }
    }
}

pub open spec fn seq_order(a: Seq<Cbor>, b: Seq<Cbor>) -> Order
    decreases a,
{
    if a.len() == 0 || b.len() == 0 {
        int_order(a.len() as int, b.len() as int)
    } else {
        let c = cbor_order(a[0], b[0]);
        if c == Order::Equal {
            seq_order(a.drop_first(), b.drop_first())
        } else {
            c
        }
    }
}

pub open spec fn entry_order(a: (Cbor, Cbor), b: (Cbor, Cbor)) -> Order
    decreases a,
{
    let c = cbor_order(a.0, b.0);
    if c == Order::Equal {
        cbor_order(a.1, b.1)
    } else {
        c
    }
}

pub open spec fn entries_order(a: Seq<(Cbor, Cbor)>, b: Seq<(Cbor, Cbor)>) -> Order
    decreases a,
{
    if a.len() == 0 || b.len() == 0 {
        int_order(a.len() as int, b.len() as int)
    } else {
        let c = entry_order(a[0], b[0]);
        if c == Order::Equal {
            entries_order(a.drop_first(), b.drop_first())
        } else {
            c
        }
    }
}

fn rank_of(v: &CborValue) -> (r: u8)
    ensures
        r as int == rank(v@),
{
    match v {
        CborValue::Integer(_) => 0,
        CborValue::Bytes(_) => 1,
        CborValue::Float(_) => 2,
        CborValue::Text(_) => 3,
        CborValue::Bool(_) => 4,
        CborValue::Null => 5,
        CborValue::Tag(_, _) => 6,
        CborValue::Array(_) => 7,
        CborValue::Mapping(_) => 8,
    }
}

fn order_ints(a: i128, b: i128) -> (r: Order)
    ensures
        r == int_order(a as int, b as int),
{
    if a < b {
        Order::Less
    } else if a == b {
        Order::Equal
    } else {
        Order::Greater
    }
}

fn float_key_of(x: u64) -> (r: i128)
    ensures
        r as int == float_key(x),
{
    if x >= 0x8000_0000_0000_0000 {
        -((x - 0x8000_0000_0000_0000) as i128)
    } else {
        x as i128
    }
}

/// Compares two floats given by their bit patterns as IEEE 754 does.
pub fn order_floats(a: u64, b: u64) -> (r: Order)
    ensures
        r == float_order(a, b),
{
    if a % 0x8000_0000_0000_0000 > 0x7FF0_0000_0000_0000 || b % 0x8000_0000_0000_0000
        > 0x7FF0_0000_0000_0000 {
        Order::Unordered
    } else {
        order_ints(float_key_of(a), float_key_of(b))
    }
}

proof fn lemma_bytes_order_step(a: Seq<u8>, b: Seq<u8>, i: int)
    requires
        0 <= i < a.len(),
        i < b.len(),
        a[i] == b[i],
    ensures
        bytes_order(a.subrange(i, a.len() as int), b.subrange(i, b.len() as int)) == bytes_order(
            a.subrange(i + 1, a.len() as int),
            b.subrange(i + 1, b.len() as int),
        ),
{
    assert(a.subrange(i, a.len() as int).drop_first() =~= a.subrange(i + 1, a.len() as int));
    assert(b.subrange(i, b.len() as int).drop_first() =~= b.subrange(i + 1, b.len() as int));
}

fn order_bytes(a: &Vec<u8>, b: &Vec<u8>) -> (r: Order)
    ensures
        r == bytes_order(a@, b@),
{
    let mut i: usize = 0;
    assert(a@.subrange(0, a@.len() as int) =~= a@);
    assert(b@.subrange(0, b@.len() as int) =~= b@);
    while i < a.len() && i < b.len()
        invariant
            i <= a.len(),
            i <= b.len(),
            bytes_order(a@, b@) == bytes_order(
                a@.subrange(i as int, a@.len() as int),
                b@.subrange(i as int, b@.len() as int),
            ),
        decreases a.len() - i,
    {
        if a[i] != b[i] {
            return order_ints(a[i] as i128, b[i] as i128);
        }
        proof {
            lemma_bytes_order_step(a@, b@, i as int);
        }
        i = i + 1;
    }
    order_ints(a.len() as i128 - i as i128, b.len() as i128 - i as i128)
}

proof fn lemma_text_order_step(a: Seq<char>, b: Seq<char>, i: int)
    requires
        0 <= i < a.len(),
        i < b.len(),
        a[i] == b[i],
    ensures
        text_order(a.subrange(i, a.len() as int), b.subrange(i, b.len() as int)) == text_order(
            a.subrange(i + 1, a.len() as int),
            b.subrange(i + 1, b.len() as int),
        ),
{
    assert(a.subrange(i, a.len() as int).drop_first() =~= a.subrange(i + 1, a.len() as int));
    assert(b.subrange(i, b.len() as int).drop_first() =~= b.subrange(i + 1, b.len() as int));
}

/// Compares two texts by code point.
pub fn order_texts(x: &str, y: &str) -> (r: Order)
    ensures
        r == text_order(x@, y@),
{
    let a = chars_of(x);
    let b = chars_of(y);
    let mut i: usize = 0;
    assert(a@.subrange(0, a@.len() as int) =~= a@);
    assert(b@.subrange(0, b@.len() as int) =~= b@);
    while i < a.len() && i < b.len()
        invariant
            i <= a.len(),
            i <= b.len(),
            a@ == x@,
            b@ == y@,
            text_order(a@, b@) == text_order(
                a@.subrange(i as int, a@.len() as int),
                b@.subrange(i as int, b@.len() as int),
            ),
        decreases a.len() - i,
    {
        if a[i] != b[i] {
            if a[i] < b[i] {
                return Order::Less;
            } else {
                return Order::Greater;
            }
        }
        proof {
            lemma_text_order_step(a@, b@, i as int);
        }
        i = i + 1;
    }
    order_ints(a.len() as i128 - i as i128, b.len() as i128 - i as i128)
}

proof fn lemma_seq_order_step(a: Seq<Cbor>, b: Seq<Cbor>, i: int)
    requires
        0 <= i < a.len(),
        i < b.len(),
        cbor_order(a[i], b[i]) == Order::Equal,
    ensures
        seq_order(a.subrange(i, a.len() as int), b.subrange(i, b.len() as int)) == seq_order(
            a.subrange(i + 1, a.len() as int),
            b.subrange(i + 1, b.len() as int),
        ),
{
    assert(a.subrange(i, a.len() as int).drop_first() =~= a.subrange(i + 1, a.len() as int));
    assert(b.subrange(i, b.len() as int).drop_first() =~= b.subrange(i + 1, b.len() as int));
}

proof fn lemma_seq_order_stop(a: Seq<Cbor>, b: Seq<Cbor>, i: int)
    requires
        0 <= i < a.len(),
        i < b.len(),
        cbor_order(a[i], b[i]) != Order::Equal,
    ensures
        seq_order(a.subrange(i, a.len() as int), b.subrange(i, b.len() as int)) == cbor_order(
            a[i],
            b[i],
        ),
{
}

proof fn lemma_entries_order_stop(a: Seq<(Cbor, Cbor)>, b: Seq<(Cbor, Cbor)>, i: int)
    requires
        0 <= i < a.len(),
        i < b.len(),
        entry_order(a[i], b[i]) != Order::Equal,
    ensures
        entries_order(a.subrange(i, a.len() as int), b.subrange(i, b.len() as int)) == entry_order(
            a[i],
            b[i],
        ),
{
}

proof fn lemma_entries_order_step(a: Seq<(Cbor, Cbor)>, b: Seq<(Cbor, Cbor)>, i: int)
    requires
        0 <= i < a.len(),
        i < b.len(),
        entry_order(a[i], b[i]) == Order::Equal,
    ensures
        entries_order(a.subrange(i, a.len() as int), b.subrange(i, b.len() as int)) == entries_order(
            a.subrange(i + 1, a.len() as int),
            b.subrange(i + 1, b.len() as int),
        ),
{
    assert(a.subrange(i, a.len() as int).drop_first() =~= a.subrange(i + 1, a.len() as int));
    assert(b.subrange(i, b.len() as int).drop_first() =~= b.subrange(i + 1, b.len() as int));
}

/// Compares two values in the order of `cbor_order`.
pub fn order_values(a: &CborValue, b: &CborValue) -> (r: Order)
    ensures
        r == cbor_order(a@, b@),
    decreases a,
{
    let ra = rank_of(a);
    let rb = rank_of(b);
    if ra != rb {
        return order_ints(ra as i128, rb as i128);
    }
    match (a, b) {
        (CborValue::Integer(x), CborValue::Integer(y)) => order_ints(*x, *y),
        (CborValue::Bytes(x), CborValue::Bytes(y)) => order_bytes(x, y),
        (CborValue::Float(x), CborValue::Float(y)) => order_floats(*x, *y),
        (CborValue::Text(x), CborValue::Text(y)) => order_texts(x.as_str(), y.as_str()),
        (CborValue::Bool(x), CborValue::Bool(y)) => order_ints(
            if *x { 1 } else { 0 },
            if *y { 1 } else { 0 },
        ),
        (CborValue::Tag(t, x), CborValue::Tag(u, y)) => {
            if *t != *u {
                order_ints(*t as i128, *u as i128)
            } else {
                order_values(&**x, &**y)
            }
        },
        (CborValue::Array(x), CborValue::Array(y)) => order_arrays(x, y),
        (CborValue::Mapping(x), CborValue::Mapping(y)) => order_mappings(x, y),
        _ => Order::Equal,
    }
}

fn order_arrays(x: &Vec<CborValue>, y: &Vec<CborValue>) -> (r: Order)
    ensures
        r == seq_order(models(x@), models(y@)),
    decreases x,
{
    let ghost a = models(x@);
    let ghost b = models(y@);
    proof {
        lemma_models(x@);
        lemma_models(y@);
        assert(a.subrange(0, a.len() as int) =~= a);
        assert(b.subrange(0, b.len() as int) =~= b);
    }
    let mut i: usize = 0;
    while i < x.len() && i < y.len()
        invariant
            i <= x.len(),
            i <= y.len(),
            a == models(x@),
            b == models(y@),
            a.len() == x@.len(),
            b.len() == y@.len(),
            forall|j: int| 0 <= j < x@.len() ==> #[trigger] a[j] == model(x@[j]),
            forall|j: int| 0 <= j < y@.len() ==> #[trigger] b[j] == model(y@[j]),
            seq_order(a, b) == seq_order(
                a.subrange(i as int, a.len() as int),
                b.subrange(i as int, b.len() as int),
            ),
        decreases x.len() - i,
    {
        proof {
            assert(decreases_to!(x => x@[i as int]));
        }
        let c = order_values(&x[i], &y[i]);
        if c != Order::Equal {
            proof {
                lemma_seq_order_stop(a, b, i as int);
            }
            return c;
        }
        proof {
            lemma_seq_order_step(a, b, i as int);
        }
        i = i + 1;
    }
    order_ints(x.len() as i128 - i as i128, y.len() as i128 - i as i128)
}

fn order_mappings(x: &Vec<(CborValue, CborValue)>, y: &Vec<(CborValue, CborValue)>) -> (r: Order)
    ensures
        r == entries_order(entry_models(x@), entry_models(y@)),
    decreases x,
{
    let ghost a = entry_models(x@);
    let ghost b = entry_models(y@);
    proof {
        lemma_entry_models(x@);
        lemma_entry_models(y@);
        assert(a.subrange(0, a.len() as int) =~= a);
        assert(b.subrange(0, b.len() as int) =~= b);
    }
    let mut i: usize = 0;
    while i < x.len() && i < y.len()
        invariant
            i <= x.len(),
            i <= y.len(),
            a == entry_models(x@),
            b == entry_models(y@),
            a.len() == x@.len(),
            b.len() == y@.len(),
            forall|j: int|
                0 <= j < x@.len() ==> #[trigger] a[j] == (model(x@[j].0), model(x@[j].1)),
            forall|j: int|
                0 <= j < y@.len() ==> #[trigger] b[j] == (model(y@[j].0), model(y@[j].1)),
            entries_order(a, b) == entries_order(
                a.subrange(i as int, a.len() as int),
                b.subrange(i as int, b.len() as int),
            ),
        decreases x.len() - i,
    {
        proof {
            assert(decreases_to!(x => x@[i as int]));
            assert(a[i as int] == (model(x@[i as int].0), model(x@[i as int].1)));
            assert(b[i as int] == (model(y@[i as int].0), model(y@[i as int].1)));
        }
        let mut c = order_values(&x[i].0, &y[i].0);
        if c == Order::Equal {
            c = order_values(&x[i].1, &y[i].1);
        }
        if c != Order::Equal {
            proof {
                assert(entry_order(a[i as int], b[i as int]) == c);
                lemma_entries_order_stop(a, b, i as int);
            }
            return c;
        }
        proof {
            lemma_entries_order_step(a, b, i as int);
        }
        i = i + 1;
    }
    order_ints(x.len() as i128 - i as i128, y.len() as i128 - i as i128)
}


fn bytes_equal(a: &Vec<u8>, b: &Vec<u8>) -> (r: bool)
    ensures
        r == (a@ == b@),
{
    if a.len() != b.len() {
        return false;
    }
    let mut i: usize = 0;
    while i < a.len()
        invariant
            i <= a.len(),
            a.len() == b.len(),
            forall|j: int| 0 <= j < i ==> a@[j] == b@[j],
        decreases a.len() - i,
    {
        if a[i] != b[i] {
            return false;
        }
        i = i + 1;
    }
    assert(a@ =~= b@);
    true
}

/// Whether two floats given by their bits are equal as numbers are.
fn floats_equal(x: u64, y: u64) -> (r: bool)
    ensures
        r == (canon_float(x) == canon_float(y) && !is_nan_bits(x)),
{
    if x % 0x8000_0000_0000_0000 > 0x7FF0_0000_0000_0000 || y % 0x8000_0000_0000_0000 > 0x7FF0_0000_0000_0000 {
        false
    } else if x % 0x8000_0000_0000_0000 == 0 && y % 0x8000_0000_0000_0000 == 0 {
        true
    } else {
        x == y
    }
}

/// Whether two values are equal (see `cbor_eq`): the same structure, floats
/// compared as numbers.
pub fn values_equal(a: &CborValue, b: &CborValue) -> (r: bool)
    ensures
        r == cbor_eq(a@, b@),
    decreases a,
{
    match (a, b) {
        (CborValue::Integer(x), CborValue::Integer(y)) => *x == *y,
        (CborValue::Bytes(x), CborValue::Bytes(y)) => bytes_equal(x, y),
        (CborValue::Float(x), CborValue::Float(y)) => floats_equal(*x, *y),
        (CborValue::Text(x), CborValue::Text(y)) => *x == *y,
        (CborValue::Bool(x), CborValue::Bool(y)) => *x == *y,
        (CborValue::Null, CborValue::Null) => true,
        (CborValue::Tag(t, x), CborValue::Tag(u, y)) => *t == *u && values_equal(&**x, &**y),
        (CborValue::Array(x), CborValue::Array(y)) => arrays_equal(x, y),
        (CborValue::Mapping(x), CborValue::Mapping(y)) => mappings_equal(x, y),
        _ => false,
    }
}

fn arrays_equal(x: &Vec<CborValue>, y: &Vec<CborValue>) -> (r: bool)
    ensures
        r == (canon_seq(models(x@)) == canon_seq(models(y@)) && !has_nan_seq(models(x@))),
    decreases x,
{
    let ghost mx = models(x@);
    let ghost my = models(y@);
    proof {
        lemma_models(x@);
        lemma_models(y@);
        lemma_canon_seq(mx);
        lemma_canon_seq(my);
    }
    if x.len() != y.len() {
        assert(canon_seq(mx).len() != canon_seq(my).len());
        return false;
    }
    let mut i: usize = 0;
    while i < x.len()
        invariant
            i <= x.len(),
            x.len() == y.len(),
            mx == models(x@),
            my == models(y@),
            mx.len() == x@.len(),
            my.len() == y@.len(),
            forall|j: int| 0 <= j < x@.len() ==> #[trigger] mx[j] == model(x@[j]),
            forall|j: int| 0 <= j < y@.len() ==> #[trigger] my[j] == model(y@[j]),
            canon_seq(mx).len() == mx.len(),
            canon_seq(my).len() == my.len(),
            forall|j: int| 0 <= j < mx.len() ==> #[trigger] canon_seq(mx)[j] == canon(mx[j]),
            forall|j: int| 0 <= j < my.len() ==> #[trigger] canon_seq(my)[j] == canon(my[j]),
            forall|j: int| 0 <= j < mx.len() && #[trigger] has_nan(mx[j]) ==> has_nan_seq(mx),
            has_nan_seq(mx) ==> exists|j: int| 0 <= j < mx.len() && #[trigger] has_nan(mx[j]),
            forall|j: int| 0 <= j < i ==> cbor_eq(#[trigger] mx[j], my[j]),
        decreases x.len() - i,
    {
        proof {
            assert(decreases_to!(x => x@[i as int]));
        }
        if !values_equal(&x[i], &y[i]) {
            proof {
                if canon(mx[i as int]) == canon(my[i as int]) {
                    assert(has_nan(mx[i as int]));
                } else {
                    assert(canon_seq(mx)[i as int] != canon_seq(my)[i as int]);
                }
            }
            return false;
        }
        i = i + 1;
    }
    assert(canon_seq(mx) =~= canon_seq(my));
    proof {
        if has_nan_seq(mx) {
            let j = choose|j: int| 0 <= j < mx.len() && #[trigger] has_nan(mx[j]);
            assert(cbor_eq(mx[j], my[j]));
        }
    }
    true
}

fn mappings_equal(x: &Vec<(CborValue, CborValue)>, y: &Vec<(CborValue, CborValue)>) -> (r: bool)
    ensures
        r == (canon_entries(entry_models(x@)) == canon_entries(entry_models(y@)) && !has_nan_entries(
            entry_models(x@),
        )),
    decreases x,
{
    let ghost mx = entry_models(x@);
    let ghost my = entry_models(y@);
    proof {
        lemma_entry_models(x@);
        lemma_entry_models(y@);
        lemma_canon_entries(mx);
        lemma_canon_entries(my);
    }
    if x.len() != y.len() {
        assert(canon_entries(mx).len() != canon_entries(my).len());
        return false;
    }
    let mut i: usize = 0;
    while i < x.len()
        invariant
            i <= x.len(),
            x.len() == y.len(),
            mx == entry_models(x@),
            my == entry_models(y@),
            mx.len() == x@.len(),
            my.len() == y@.len(),
            forall|j: int| 0 <= j < x@.len() ==> #[trigger] mx[j] == (model(x@[j].0), model(x@[j].1)),
            forall|j: int| 0 <= j < y@.len() ==> #[trigger] my[j] == (model(y@[j].0), model(y@[j].1)),
            canon_entries(mx).len() == mx.len(),
            canon_entries(my).len() == my.len(),
            forall|j: int| 0 <= j < mx.len() ==> #[trigger] canon_entries(mx)[j] == (canon(mx[j].0), canon(mx[j].1)),
            forall|j: int| 0 <= j < my.len() ==> #[trigger] canon_entries(my)[j] == (canon(my[j].0), canon(my[j].1)),
            forall|j: int| 0 <= j < mx.len() && (has_nan(#[trigger] mx[j].0) || has_nan(mx[j].1)) ==> has_nan_entries(mx),
            forall|j: int| 0 <= j < i ==> cbor_eq(#[trigger] mx[j].0, my[j].0) && cbor_eq(mx[j].1, my[j].1),
        decreases x.len() - i,
    {
        proof {
            assert(decreases_to!(x => x@[i as int]));
        }
        if !values_equal(&x[i].0, &y[i].0) || !values_equal(&x[i].1, &y[i].1) {
            proof {
                let a = mx[i as int];
                let b = my[i as int];
                if canon(a.0) == canon(b.0) && canon(a.1) == canon(b.1) {
                    assert(has_nan(a.0) || has_nan(a.1));
                } else {
                    assert(canon_entries(mx)[i as int] != canon_entries(my)[i as int]);
                }
            }
            return false;
        }
        i = i + 1;
    }
    assert(canon_entries(mx) =~= canon_entries(my));
    proof {
        lemma_canon_entries(mx);
        if has_nan_entries(mx) {
            let j = choose|j: int| 0 <= j < mx.len() && (has_nan(#[trigger] mx[j].0) || has_nan(mx[j].1));
            assert(cbor_eq(mx[j].0, my[j].0) && cbor_eq(mx[j].1, my[j].1));
        }
    }
    true
}

impl PartialEq for CborValue {
    fn eq(&self, other: &Self) -> (r: bool) {
        values_equal(self, other)
    }
}

impl PartialEqSpecImpl for CborValue {
    open spec fn obeys_eq_spec() -> bool {
        true
    }

    open spec fn eq_spec(&self, other: &CborValue) -> bool {
        cbor_eq(self@, other@)
    }
}

} // verus!
