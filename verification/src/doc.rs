//! A plain document tree: what the engine reads of a parsed YAML document.
//! Scalars, sequences and string-keyed mappings are represented directly;
//! anything the engine has no use for (floats, tagged nodes, or content
//! nested deeper than a pipeline document ever goes) is `Other`.

use vstd::prelude::*;

verus! {

/// A plain value of a parsed pipeline document. The tree is at most
/// `DOC_DEPTH` levels deep: the conversion from the YAML crate replaces
/// anything deeper by `Other`, and a pipeline document never nests deeper.
pub enum DocValue {
    Null,
    Bool(bool),
    Int(i128),
    Str(String),
    List(Vec<DocValue>),
    Dict(Vec<(String, DocValue)>),
    Other,
}

/// Mathematical view of a `DocValue`.
pub enum DocModel {
    Null,
    Bool(bool),
    Int(i128),
    Str(Seq<char>),
    List(Seq<DocModel>),
    Dict(Seq<(Seq<char>, DocModel)>),
    Other,
}

/// The nesting depth a pipeline document can use: the top mapping, the
/// `actions` mapping, an action body, the `targets` list of a save action,
/// and its string elements.
pub const DOC_DEPTH: usize = 5;

/// The model of a document value, read to a bounded depth: below `fuel`
/// levels everything is `Other`.
pub open spec fn doc_model_at(d: DocValue, fuel: nat) -> DocModel
    decreases fuel, 0int,
{
    if fuel == 0 {
        DocModel::Other
    } else {
        match d {
            DocValue::Null => DocModel::Null,
            DocValue::Bool(b) => DocModel::Bool(b),
            DocValue::Int(n) => DocModel::Int(n),
            DocValue::Str(s) => DocModel::Str(s@),
            DocValue::List(v) => DocModel::List(list_model(v@, (fuel - 1) as nat)),
            DocValue::Dict(v) => DocModel::Dict(dict_model(v@, (fuel - 1) as nat)),
            DocValue::Other => DocModel::Other,
        }
    }
}

/// The models of a list's elements, each read at depth `fuel`.
pub open spec fn list_model(xs: Seq<DocValue>, fuel: nat) -> Seq<DocModel>
    decreases fuel, 1int,
{
    Seq::new(xs.len(), |i: int| doc_model_at(xs[i], fuel))
}

/// The model of a dictionary's entries, each value read at depth `fuel`.
pub open spec fn dict_model(es: Seq<(String, DocValue)>, fuel: nat) -> Seq<
    (Seq<char>, DocModel),
>
    decreases fuel, 1int,
{
    Seq::new(es.len(), |i: int| (es[i].0@, doc_model_at(es[i].1, fuel)))
}

/// The model of a whole document.
pub open spec fn doc_model(d: DocValue) -> DocModel {
    doc_model_at(d, DOC_DEPTH as nat)
}

/// The first value under key `k`, if any.
pub open spec fn dlookup(es: Seq<(Seq<char>, DocModel)>, k: Seq<char>) -> Option<DocModel>
    decreases es.len(),
{
    if es.len() == 0 {
        Option::None
    } else if es[0].0 == k {
        Option::Some(es[0].1)
    } else {
        dlookup(es.drop_first(), k)
    }
}

/// The lookup in a dictionary of at most two entries, written out.
pub proof fn lemma_dlookup_upto2(es: Seq<(Seq<char>, DocModel)>)
    requires
        es.len() <= 2,
    ensures
        forall|k: Seq<char>|
            #[trigger] dlookup(es, k) == (if es.len() >= 1 && es[0].0 == k {
                Option::Some(es[0].1)
            } else if es.len() == 2 && es[1].0 == k {
                Option::Some(es[1].1)
            } else {
                Option::<DocModel>::None
            }),
{
    assert forall|k: Seq<char>|
        #[trigger] dlookup(es, k) == (if es.len() >= 1 && es[0].0 == k {
            Option::Some(es[0].1)
        } else if es.len() == 2 && es[1].0 == k {
            Option::Some(es[1].1)
        } else {
            Option::<DocModel>::None
        }) by {
        reveal_with_fuel(dlookup, 3);
        if es.len() == 0 {
        } else if es[0].0 == k {
        } else {
            let r = es.drop_first();
            assert(dlookup(es, k) == dlookup(r, k));
            if r.len() == 0 {
            } else if r[0].0 == k {
                assert(r[0] == es[1]);
            } else {
                assert(r.drop_first().len() == 0);
                assert(dlookup(r, k) == dlookup(r.drop_first(), k));
            }
        }
    }
}

/// Looks up the first entry under key `k` of a document dictionary. The
/// ghost `fuel` fixes the depth at which the result is modelled.
pub fn dict_get<'a>(
    es: &'a Vec<(String, DocValue)>,
    k: &str,
    Ghost(fuel): Ghost<nat>,
) -> (r: Option<&'a DocValue>)
    ensures
        match r {
            Option::Some(v) => dlookup(dict_model(es@, fuel), k@) == Option::Some(
                doc_model_at(*v, fuel),
            ),
            Option::None => dlookup(dict_model(es@, fuel), k@) == Option::<DocModel>::None,
        },
{
    let ghost ms = dict_model(es@, fuel);
    let n = es.len();
    proof {
        assert(ms.subrange(0, es@.len() as int) =~= ms);
    }
    let mut i: usize = 0;
    while i < n
        invariant
            ms == dict_model(es@, fuel),
            n == es@.len(),
            n == ms.len(),
            0 <= i <= n,
            dlookup(ms, k@) == dlookup(ms.subrange(i as int, n as int), k@),
        decreases n - i,
    {
        let ghost rest = ms.subrange(i as int, n as int);
        if crate::strutil::str_eq(es[i].0.as_str(), k) {
            proof {
                assert(rest[0] == ms[i as int]);
                assert(rest[0].0 == k@);
                assert(dlookup(rest, k@) == Option::Some(ms[i as int].1));
            }
            return Some(&es[i].1);
        }
        proof {
            assert(rest[0] == ms[i as int]);
            assert(rest[0].0 != k@);
            assert(rest.drop_first() =~= ms.subrange(i + 1, n as int));
        }
        i = i + 1;
    }
    proof {
        assert(ms.subrange(n as int, n as int).len() == 0);
    }
    None
}

/// Reads a string scalar.
pub fn as_str<'a>(v: &'a DocValue, Ghost(fuel): Ghost<nat>) -> (r: Option<&'a String>)
    requires
        fuel >= 1,
    ensures
        match r {
            Option::Some(s) => doc_model_at(*v, fuel) == DocModel::Str(s@),
            Option::None => !(doc_model_at(*v, fuel) matches DocModel::Str(_)),
        },
{
    match v {
        DocValue::Str(s) => Some(s),
        _ => None,
    }
}

/// Reads a boolean scalar.
pub fn as_bool(v: &DocValue, Ghost(fuel): Ghost<nat>) -> (r: Option<bool>)
    requires
        fuel >= 1,
    ensures
        match r {
            Option::Some(b) => doc_model_at(*v, fuel) == DocModel::Bool(b),
            Option::None => !(doc_model_at(*v, fuel) matches DocModel::Bool(_)),
        },
{
    match v {
        DocValue::Bool(b) => Some(*b),
        _ => None,
    }
}

/// Reads an integer scalar.
pub fn as_int(v: &DocValue, Ghost(fuel): Ghost<nat>) -> (r: Option<i128>)
    requires
        fuel >= 1,
    ensures
        match r {
            Option::Some(n) => doc_model_at(*v, fuel) == DocModel::Int(n),
            Option::None => !(doc_model_at(*v, fuel) matches DocModel::Int(_)),
        },
{
    match v {
        DocValue::Int(n) => Some(*n),
        _ => None,
    }
}

/// Reads a list, whose elements are then modelled one level deeper.
pub fn as_list<'a>(v: &'a DocValue, Ghost(fuel): Ghost<nat>) -> (r: Option<&'a Vec<
    DocValue,
>>)
    requires
        fuel >= 1,
    ensures
        match r {
            Option::Some(xs) => doc_model_at(*v, fuel) == DocModel::List(
                list_model(xs@, (fuel - 1) as nat),
            ),
            Option::None => !(doc_model_at(*v, fuel) matches DocModel::List(_)),
        },
{
    match v {
        DocValue::List(xs) => Some(xs),
        _ => None,
    }
}

/// Reads a dictionary, whose entries are then modelled one level deeper.
pub fn as_dict<'a>(v: &'a DocValue, Ghost(fuel): Ghost<nat>) -> (r: Option<&'a Vec<
    (String, DocValue),
>>)
    requires
        fuel >= 1,
    ensures
        match r {
            Option::Some(es) => doc_model_at(*v, fuel) == DocModel::Dict(
                dict_model(es@, (fuel - 1) as nat),
            ),
            Option::None => !(doc_model_at(*v, fuel) matches DocModel::Dict(_)),
        },
{
    match v {
        DocValue::Dict(es) => Some(es),
        _ => None,
    }
}

} // verus!
