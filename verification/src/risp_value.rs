//! The values of evaluated risp scripts, in which configurations and
//! patches are written, and how they are read.
use vstd::prelude::*;
use risp::types::RispError;
use crate::midi::{same_name, copy_string};

verus! {

#[verifier::external_type_specification]
#[verifier::external_body]
pub struct ExRispError(RispError);

/// The data of a risp value that configurations and patches are read from.
/// Functions carry no data that the reading uses.
pub enum RispValue {
    Nil,
    Bool(bool),
    Int(i64),
    Str(String),
    List(Vec<RispValue>),
    Vector(Vec<RispValue>),
    Table(Vec<(String, RispValue)>),
    Keyword(String),
    Symbol(String),
    Function,
}

/// The kind of value a reading expected.
#[derive(Copy, Clone, Debug, PartialEq, Eq, Structural)]
pub enum ValueKind {
    Bool,
    Int,
    Str,
    Vector,
    Table,
}

/// Why a configuration or a patch could not be read.
pub enum LoadError {
    /// The script did not evaluate.
    Script(RispError),
    /// A value had another kind than the reading expected.
    Expected(ValueKind),
    MissingName,
    MissingEffects,
    MissingTrigger,
    StrangeTrigger,
    MissingNotes,
    MissingControlIndex,
    MissingStopValue,
    MissingEffect,
    /// The light show holds a value of another kind than expected.
    InvalidLights,
    /// A time per note too long for the nanosecond clock.
    TimeOutOfRange,
}

/// The value of the first entry with the key `key`.
pub open spec fn lookup(entries: Seq<(String, RispValue)>, key: Seq<char>) -> Option<RispValue>
    decreases entries.len(),
{
    if entries.len() == 0 {
        None
    } else if entries[0].0@ == key {
        Some(entries[0].1)
    } else {
        lookup(entries.drop_first(), key)
    }
}

/// The value of `key` in a table; a value that is not a table is an error.
pub open spec fn get_spec(v: RispValue, key: Seq<char>) -> Result<Option<RispValue>, LoadError> {
    match v {
        RispValue::Table(entries) => Ok(lookup(entries@, key)),
        _ => Err(LoadError::Expected(ValueKind::Table)),
    }
}

pub open spec fn bool_of(x: RispValue) -> Result<bool, LoadError> {
    match x {
        RispValue::Bool(b) => Ok(b),
        _ => Err(LoadError::Expected(ValueKind::Bool)),
    }
}

pub open spec fn int_of(x: RispValue) -> Result<i64, LoadError> {
    match x {
        RispValue::Int(i) => Ok(i),
        _ => Err(LoadError::Expected(ValueKind::Int)),
    }
}

pub open spec fn str_of(x: RispValue) -> Result<Seq<char>, LoadError> {
    match x {
        RispValue::Str(s) => Ok(s@),
        _ => Err(LoadError::Expected(ValueKind::Str)),
    }
}

pub open spec fn vector_of(x: RispValue) -> Result<Seq<RispValue>, LoadError> {
    match x {
        RispValue::Vector(v) => Ok(v@),
        _ => Err(LoadError::Expected(ValueKind::Vector)),
    }
}

/// The value of `key` in a table, converted by `conv`.
pub open spec fn get_as<T>(v: RispValue, key: Seq<char>, conv: spec_fn(RispValue) -> Result<T, LoadError>) -> Result<Option<T>, LoadError> {
    match get_spec(v, key) {
        Err(e) => Err(e),
        Ok(None) => Ok(None),
        Ok(Some(x)) => match conv(x) {
            Ok(t) => Ok(Some(t)),
            Err(e) => Err(e),
        },
    }
}

pub fn get<'a>(v: &'a RispValue, key: &str) -> (r: Result<Option<&'a RispValue>, LoadError>)
    ensures
        match get_spec(*v, key@) {
            Ok(Some(x)) => r matches Ok(Some(y)) && *y == x,
            Ok(None) => r matches Ok(None),
            Err(e) => r matches Err(e2) && e2 == e,
        },
{
    match v {
        RispValue::Table(entries) => {
            let mut i: usize = 0;
            assert(entries@.subrange(0, entries@.len() as int) =~= entries@);
            while i < entries.len()
                invariant
                    *v == RispValue::Table(*entries),
                    i <= entries@.len(),
                    lookup(entries@, key@) == lookup(entries@.subrange(i as int, entries@.len() as int), key@),
                decreases entries@.len() - i,
            {
                let ghost rest = entries@.subrange(i as int, entries@.len() as int);
                assert(rest.drop_first() =~= entries@.subrange(i + 1, entries@.len() as int));
                assert(rest[0] == entries@[i as int]);
                if same_name(entries[i].0.as_str(), key) {
                    return Ok(Some(&entries[i].1));
                }
                i = i + 1;
            }
            Ok(None)
        },
        _ => Err(LoadError::Expected(ValueKind::Table)),
    }
}

pub open spec fn get_bool_spec(v: RispValue, key: Seq<char>) -> Result<Option<bool>, LoadError> {
    get_as(v, key, |x: RispValue| bool_of(x))
}

pub open spec fn get_int_spec(v: RispValue, key: Seq<char>) -> Result<Option<i64>, LoadError> {
    get_as(v, key, |x: RispValue| int_of(x))
}

pub open spec fn get_str_spec(v: RispValue, key: Seq<char>) -> Result<Option<Seq<char>>, LoadError> {
    get_as(v, key, |x: RispValue| str_of(x))
}

pub open spec fn get_vector_spec(v: RispValue, key: Seq<char>) -> Result<Option<Seq<RispValue>>, LoadError> {
    get_as(v, key, |x: RispValue| vector_of(x))
}

pub fn get_bool(v: &RispValue, key: &str) -> (r: Result<Option<bool>, LoadError>)
    ensures
        r == get_bool_spec(*v, key@),
{
    match get(v, key) {
        Err(e) => Err(e),
        Ok(None) => Ok(None),
        Ok(Some(RispValue::Bool(b))) => Ok(Some(*b)),
        Ok(Some(_)) => Err(LoadError::Expected(ValueKind::Bool)),
    }
}

pub fn get_int(v: &RispValue, key: &str) -> (r: Result<Option<i64>, LoadError>)
    ensures
        r == get_int_spec(*v, key@),
{
    match get(v, key) {
        Err(e) => Err(e),
        Ok(None) => Ok(None),
        Ok(Some(RispValue::Int(i))) => Ok(Some(*i)),
        Ok(Some(_)) => Err(LoadError::Expected(ValueKind::Int)),
    }
}

pub fn get_string(v: &RispValue, key: &str) -> (r: Result<Option<String>, LoadError>)
    ensures
        match get_str_spec(*v, key@) {
            Ok(Some(s)) => r matches Ok(Some(t)) && t@ == s,
            Ok(None) => r matches Ok(None),
            Err(e) => r matches Err(e2) && e2 == e,
        },
{
    match get(v, key) {
        Err(e) => Err(e),
        Ok(None) => Ok(None),
        Ok(Some(RispValue::Str(s))) => Ok(Some(copy_string(s))),
        Ok(Some(_)) => Err(LoadError::Expected(ValueKind::Str)),
    }
}

pub fn get_vector<'a>(v: &'a RispValue, key: &str) -> (r: Result<Option<&'a Vec<RispValue>>, LoadError>)
    ensures
        match get_vector_spec(*v, key@) {
            Ok(Some(s)) => r matches Ok(Some(t)) && t@ == s,
            Ok(None) => r matches Ok(None),
            Err(e) => r matches Err(e2) && e2 == e,
        },
{
    match get(v, key) {
        Err(e) => Err(e),
        Ok(None) => Ok(None),
        Ok(Some(RispValue::Vector(items))) => Ok(Some(items)),
        Ok(Some(_)) => Err(LoadError::Expected(ValueKind::Vector)),
    }
}

/// The items of nested vectors, in order, with the vectors flattened away.
pub open spec fn flat_items(items: Seq<RispValue>) -> Seq<RispValue>
    decreases items,
{
    if items.len() == 0 {
        Seq::empty()
    } else {
        let first = items[0];
        let rest = flat_items(items.subrange(1, items.len() as int));
        match first {
            RispValue::Vector(inner) => {
                proof {
                    assert(decreases_to!(items => first));
                }
                flat_items(inner@) + rest
            },
            _ => seq![first] + rest,
        }
    }
}

/// The integers of a sequence of values; the first value that is not an
/// integer is an error.
pub open spec fn ints_of(items: Seq<RispValue>) -> Result<Seq<i64>, LoadError>
    decreases items.len(),
{
    if items.len() == 0 {
        Ok(Seq::empty())
    } else {
        match int_of(items[0]) {
            Err(e) => Err(e),
            Ok(i) => match ints_of(items.drop_first()) {
                Err(e) => Err(e),
                Ok(rest) => Ok(seq![i] + rest),
            },
        }
    }
}

/// The integers of a vector whose nested vectors are flattened; a value that
/// is not a vector is an error.
pub open spec fn flatten_ints_spec(v: RispValue) -> Result<Seq<i64>, LoadError> {
    match v {
        RispValue::Vector(items) => ints_of(flat_items(items@)),
        _ => Err(LoadError::Expected(ValueKind::Vector)),
    }
}

pub open spec fn combined(r1: Result<Seq<i64>, LoadError>, r2: Result<Seq<i64>, LoadError>) -> Result<Seq<i64>, LoadError> {
    match r1 {
        Err(e) => Err(e),
        Ok(x) => match r2 {
            Err(e) => Err(e),
            Ok(y) => Ok(x + y),
        },
    }
}

proof fn lemma_flat_concat(a: Seq<RispValue>, b: Seq<RispValue>)
    ensures
        flat_items(a + b) == flat_items(a) + flat_items(b),
    decreases a.len(),
{
    if a.len() == 0 {
        assert(a + b =~= b);
        assert(flat_items(a) + flat_items(b) =~= flat_items(b));
    } else {
        let ab = a + b;
        assert(ab.subrange(1, ab.len() as int) =~= a.subrange(1, a.len() as int) + b);
        lemma_flat_concat(a.subrange(1, a.len() as int), b);
        assert(ab[0] == a[0]);
        match a[0] {
            RispValue::Vector(inner) => {
                assert(flat_items(ab) =~= flat_items(inner@) + (flat_items(a.subrange(1, a.len() as int)) + flat_items(b)));
                assert(flat_items(a) + flat_items(b) =~= flat_items(inner@) + flat_items(a.subrange(1, a.len() as int)) + flat_items(b));
            },
            _ => {
                assert(flat_items(ab) =~= seq![a[0]] + (flat_items(a.subrange(1, a.len() as int)) + flat_items(b)));
                assert(flat_items(a) + flat_items(b) =~= seq![a[0]] + flat_items(a.subrange(1, a.len() as int)) + flat_items(b));
            },
        }
    }
}

proof fn lemma_ints_concat(a: Seq<RispValue>, b: Seq<RispValue>)
    ensures
        ints_of(a + b) == combined(ints_of(a), ints_of(b)),
    decreases a.len(),
{
    if a.len() == 0 {
        assert(a + b =~= b);
        if let Ok(y) = ints_of(b) {
            assert(Seq::<i64>::empty() + y =~= y);
        }
    } else {
        let ab = a + b;
        assert(ab.drop_first() =~= a.drop_first() + b);
        assert(ab[0] == a[0]);
        lemma_ints_concat(a.drop_first(), b);
        if let Ok(x) = ints_of(a) {
            if let Ok(y) = ints_of(b) {
                let i = int_of(a[0])->Ok_0;
                let rest = ints_of(a.drop_first())->Ok_0;
                assert(seq![i] + (rest + y) =~= seq![i] + rest + y);
            }
        }
    }
}

proof fn lemma_flat_single(x: RispValue)
    ensures
        flat_items(seq![x]) == match x {
            RispValue::Vector(inner) => flat_items(inner@),
            _ => seq![x],
        },
{
    let s = seq![x];
    assert(s.subrange(1, 1) =~= Seq::<RispValue>::empty());
    assert(flat_items(Seq::<RispValue>::empty()) == Seq::<RispValue>::empty());
    match x {
        RispValue::Vector(inner) => {
            assert(flat_items(s) =~= flat_items(inner@));
        },
        _ => {
            assert(flat_items(s) =~= seq![x]);
        },
    }
}

/// Appends the integers of the flattened `items` to `out`.
fn push_flat_ints(items: &Vec<RispValue>, out: &mut Vec<i64>) -> (r: Result<(), LoadError>)
    ensures
        match ints_of(flat_items(items@)) {
            Ok(xs) => r is Ok && final(out)@ == old(out)@ + xs,
            Err(e) => r matches Err(e2) && e2 == e,
        },
    decreases items@,
{
    let ghost base = out@;
    let mut i: usize = 0;
    assert(items@.subrange(0, 0) =~= Seq::<RispValue>::empty());
    assert(out@.subrange(base.len() as int, out@.len() as int) =~= Seq::<i64>::empty());
    while i < items.len()
        invariant
            i <= items@.len(),
            out@.len() >= base.len(),
            out@.subrange(0, base.len() as int) == base,
            ints_of(flat_items(items@.subrange(0, i as int))) == Ok::<Seq<i64>, LoadError>(out@.subrange(base.len() as int, out@.len() as int)),
        decreases items@.len() - i,
    {
        let ghost prefix = items@.subrange(0, i as int);
        let ghost x = items@[i as int];
        let ghost rest = items@.subrange(i + 1, items@.len() as int);
        let ghost done = out@.subrange(base.len() as int, out@.len() as int);
        proof {
            assert(items@.subrange(0, i + 1) =~= prefix + seq![x]);
            assert(items@ =~= prefix + seq![x] + rest);
            lemma_flat_concat(prefix, seq![x]);
            lemma_flat_concat(prefix + seq![x], rest);
            lemma_flat_single(x);
            lemma_ints_concat(flat_items(prefix), flat_items(seq![x]));
            lemma_ints_concat(flat_items(prefix) + flat_items(seq![x]), flat_items(rest));
        }
        match &items[i] {
            RispValue::Vector(inner) => {
                proof {
                    assert(decreases_to!(items@ => x));
                }
                let ghost before = out@;
                match push_flat_ints(inner, out) {
                    Err(e) => {
                        return Err(e);
                    },
                    Ok(()) => {
                        proof {
                            assert(out@.subrange(0, base.len() as int) =~= base);
                            let added = ints_of(flat_items(inner@))->Ok_0;
                            assert(out@.subrange(base.len() as int, out@.len() as int) =~= done + added);
                        }
                    },
                }
            },
            RispValue::Int(n) => {
                out.push(*n);
                proof {
                    assert(out@.subrange(0, base.len() as int) =~= base);
                    assert(ints_of(seq![x]) == Ok::<Seq<i64>, LoadError>(seq![*n])) by {
                        assert(x == RispValue::Int(*n));
                        assert(seq![x].drop_first() =~= Seq::<RispValue>::empty());
                        assert(ints_of(Seq::<RispValue>::empty()) == Ok::<Seq<i64>, LoadError>(Seq::empty()));
                        assert(seq![*n] + Seq::<i64>::empty() =~= seq![*n]);
                    }
                    assert(out@.subrange(base.len() as int, out@.len() as int) =~= done + seq![*n]);
                }
            },
            _ => {
                proof {
                    assert(ints_of(seq![x]) == Err::<Seq<i64>, LoadError>(LoadError::Expected(ValueKind::Int)));
                }
                return Err(LoadError::Expected(ValueKind::Int));
            },
        }
        i = i + 1;
    }
    proof {
        assert(items@.subrange(0, i as int) =~= items@);
        assert(out@ =~= base + out@.subrange(base.len() as int, out@.len() as int));
    }
    Ok(())
}

/// The integers of a vector, with nested vectors flattened, as
/// `risp::convert::flatten_into` reads them.
pub fn flatten_ints(v: &RispValue) -> (r: Result<Vec<i64>, LoadError>)
    ensures
        match flatten_ints_spec(*v) {
            Ok(xs) => r matches Ok(ys) && ys@ == xs,
            Err(e) => r matches Err(e2) && e2 == e,
        },
{
    match v {
        RispValue::Vector(items) => {
            let mut out: Vec<i64> = Vec::new();
            match push_flat_ints(items, &mut out) {
                Ok(()) => {
                    assert(out@ =~= Seq::<i64>::empty() + ints_of(flat_items(items@))->Ok_0);
                    Ok(out)
                },
                Err(e) => Err(e),
            }
        },
        _ => Err(LoadError::Expected(ValueKind::Vector)),
    }
}

} // verus!
