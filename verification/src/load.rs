//! Loading a pipeline document: the YAML text is parsed into a plain
//! document tree by the YAML crate, and the configuration is then built
//! from that tree by verified structural parsing. Action variants are
//! discriminated by which keys their body carries.

use vstd::prelude::*;
use crate::doc::{
    DOC_DEPTH, DocModel, DocValue, as_bool, as_dict, as_int, as_list, as_str, dict_get,
    dict_model, dlookup, doc_model, doc_model_at, list_model,
};
use crate::model::{
    Action, ActionClick, ActionData, ActionDataModel, ActionModel, ActionSave,
    ActionScreenshot, ActionTypeInto, ActionWait, ConfigError, ConfigModel, PipelineConfig,
    Pipeline, PipelineModel, Target, TargetModel, config_wf, names_bound,
};
use crate::strmap::{StrMap, ahas, aidx, ainsert, auniq, lemma_ainsert_uniq};

verus! {

/// A required string field.
pub open spec fn spec_req_str(es: Seq<(Seq<char>, DocModel)>, k: Seq<char>) -> Option<
    Seq<char>,
> {
    match dlookup(es, k) {
        Option::Some(DocModel::Str(s)) => Option::Some(s),
        _ => Option::None,
    }
}

/// A required boolean field.
pub open spec fn spec_req_bool(es: Seq<(Seq<char>, DocModel)>, k: Seq<char>) -> Option<
    bool,
> {
    match dlookup(es, k) {
        Option::Some(DocModel::Bool(b)) => Option::Some(b),
        _ => Option::None,
    }
}

/// A required integer field that fits in a `u64`.
pub open spec fn spec_req_u64(es: Seq<(Seq<char>, DocModel)>, k: Seq<char>) -> Option<
    u64,
> {
    match dlookup(es, k) {
        Option::Some(DocModel::Int(n)) => if 0 <= n <= u64::MAX {
            Option::Some(n as u64)
        } else {
            Option::None
        },
        _ => Option::None,
    }
}

/// A required integer field that fits in a `u32`.
pub open spec fn spec_req_u32(es: Seq<(Seq<char>, DocModel)>, k: Seq<char>) -> Option<
    u32,
> {
    match dlookup(es, k) {
        Option::Some(DocModel::Int(n)) => if 0 <= n <= u32::MAX {
            Option::Some(n as u32)
        } else {
            Option::None
        },
        _ => Option::None,
    }
}

/// The settings read from the top-level mapping, where they sit beside
/// `targets`, `actions` and `steps`.
pub open spec fn spec_settings(es: Seq<(Seq<char>, DocModel)>) -> Option<PipelineModel> {
    match (
        spec_req_str(es, "name"@),
        spec_req_str(es, "url"@),
        spec_req_bool(es, "headless"@),
        spec_req_str(es, "out_dir"@),
        spec_req_u64(es, "timeout"@),
    ) {
        (
            Option::Some(name),
            Option::Some(url),
            Option::Some(headless),
            Option::Some(out_dir),
            Option::Some(timeout),
        ) => Option::Some(PipelineModel { name, url, headless, out_dir, timeout }),
        _ => Option::None,
    }
}

/// A list whose elements must all be strings.
pub open spec fn spec_strs(xs: Seq<DocModel>) -> Option<Seq<Seq<char>>>
    decreases xs.len(),
{
    if xs.len() == 0 {
        Option::Some(Seq::empty())
    } else {
        match (spec_strs(xs.drop_last()), xs.last()) {
            (Option::Some(r), DocModel::Str(s)) => Option::Some(r.push(s)),
            _ => Option::None,
        }
    }
}

/// One entry of the `targets` mapping: the body must carry a string
/// `selector`, and the entry's key becomes the target's name.
pub open spec fn spec_target_entry(e: (Seq<char>, DocModel)) -> Option<TargetModel> {
    match e.1 {
        DocModel::Dict(fs) => match spec_req_str(fs, "selector"@) {
            Option::Some(sel) => Option::Some(TargetModel { name: e.0, selector: sel }),
            Option::None => Option::None,
        },
        _ => Option::None,
    }
}

/// The target registry built from the `targets` mapping, in document order.
pub open spec fn spec_targets(es: Seq<(Seq<char>, DocModel)>) -> Option<Seq<
    (Seq<char>, TargetModel),
>>
    decreases es.len(),
{
    if es.len() == 0 {
        Option::Some(Seq::empty())
    } else {
        match (spec_targets(es.drop_last()), spec_target_entry(es.last())) {
            (Option::Some(r), Option::Some(t)) => Option::Some(
                ainsert(r, es.last().0, t),
            ),
            _ => Option::None,
        }
    }
}

/// The payload of an action, discriminated by which keys its body carries:
/// `selector` makes a click; `duration` a wait; `text` a type-into;
/// `target` with `format` a screenshot; `targets` with `flatten` a save.
pub open spec fn spec_action_data(fs: Seq<(Seq<char>, DocModel)>) -> Option<
    ActionDataModel,
> {
    if dlookup(fs, "selector"@) matches Option::Some(_) {
        match spec_req_str(fs, "selector"@) {
            Option::Some(sel) => Option::Some(ActionDataModel::Click { selector: sel }),
            Option::None => Option::None,
        }
    } else if dlookup(fs, "duration"@) matches Option::Some(_) {
        match spec_req_u32(fs, "duration"@) {
            Option::Some(d) => Option::Some(ActionDataModel::Wait { duration: d }),
            Option::None => Option::None,
        }
    } else if dlookup(fs, "text"@) matches Option::Some(_) {
        match (spec_req_str(fs, "target"@), spec_req_str(fs, "text"@)) {
            (Option::Some(t), Option::Some(x)) => Option::Some(
                ActionDataModel::TypeInto { target: t, text: x },
            ),
            _ => Option::None,
        }
    } else if dlookup(fs, "target"@) matches Option::Some(_) && dlookup(fs, "format"@)
        matches Option::Some(_) {
        match (spec_req_str(fs, "target"@), spec_req_str(fs, "format"@)) {
            (Option::Some(t), Option::Some(f)) => Option::Some(
                ActionDataModel::Screenshot { target: t, format: f },
            ),
            _ => Option::None,
        }
    } else if dlookup(fs, "targets"@) matches Option::Some(_) && dlookup(fs, "flatten"@)
        matches Option::Some(_) {
        match (dlookup(fs, "targets"@), spec_req_bool(fs, "flatten"@)) {
            (Option::Some(DocModel::List(xs)), Option::Some(fl)) => match spec_strs(xs) {
                Option::Some(ts) => Option::Some(
                    ActionDataModel::Save { targets: ts, flatten: fl },
                ),
                Option::None => Option::None,
            },
            _ => Option::None,
        }
    } else {
        Option::None
    }
}

/// One entry of the `actions` mapping.
pub open spec fn spec_action_entry(e: (Seq<char>, DocModel)) -> Option<ActionModel> {
    match e.1 {
        DocModel::Dict(fs) => match spec_action_data(fs) {
            Option::Some(d) => Option::Some(ActionModel { name: e.0, data: d }),
            Option::None => Option::None,
        },
        _ => Option::None,
    }
}

/// The action registry built from the `actions` mapping, in document order.
pub open spec fn spec_actions(es: Seq<(Seq<char>, DocModel)>) -> Option<Seq<
    (Seq<char>, ActionModel),
>>
    decreases es.len(),
{
    if es.len() == 0 {
        Option::Some(Seq::empty())
    } else {
        match (spec_actions(es.drop_last()), spec_action_entry(es.last())) {
            (Option::Some(r), Option::Some(a)) => Option::Some(
                ainsert(r, es.last().0, a),
            ),
            _ => Option::None,
        }
    }
}

/// The configuration read from a document: a mapping carrying the settings
/// fields, a `targets` mapping, an `actions` mapping and a `steps` list.
pub open spec fn spec_config(m: DocModel) -> Option<ConfigModel> {
    match m {
        DocModel::Dict(es) => match (
            spec_settings(es),
            dlookup(es, "targets"@),
            dlookup(es, "actions"@),
            dlookup(es, "steps"@),
        ) {
            (
                Option::Some(p),
                Option::Some(DocModel::Dict(ts)),
                Option::Some(DocModel::Dict(acs)),
                Option::Some(DocModel::List(ss)),
            ) => match (spec_targets(ts), spec_actions(acs), spec_strs(ss)) {
                (Option::Some(tm), Option::Some(am), Option::Some(sm)) => Option::Some(
                    ConfigModel { pipeline: p, targets: tm, actions: am, steps: sm },
                ),
                _ => Option::None,
            },
            _ => Option::None,
        },
        _ => Option::None,
    }
}

/// A parsed target registry keeps its keys distinct, and each target is
/// named after its own key.
pub proof fn lemma_targets_props(es: Seq<(Seq<char>, DocModel)>)
    ensures
        match spec_targets(es) {
            Option::Some(r) => {
                &&& auniq(r)
                &&& forall|i: int|
                    0 <= i < r.len() ==> (#[trigger] r[i]).1.name == r[i].0
                &&& forall|i: int|
                    0 <= i < r.len() ==> exists|j: int|
                        0 <= j < es.len() && (#[trigger] r[i]).0 == es[j].0
            },
            Option::None => true,
        },
    decreases es.len(),
{
    if es.len() > 0 {
        lemma_targets_props(es.drop_last());
        match (spec_targets(es.drop_last()), spec_target_entry(es.last())) {
            (Option::Some(r), Option::Some(t)) => {
                lemma_ainsert_uniq(r, es.last().0, t);
                let out = ainsert(r, es.last().0, t);
                assert(t.name == es.last().0);
                if ahas(r, es.last().0) {
                    let w = aidx(r, es.last().0);
                    assert(forall|i: int|
                        0 <= i < out.len() && i != w ==> out[i] == r[i]);
                }
                assert forall|i: int| 0 <= i < out.len() implies exists|j: int|
                    0 <= j < es.len() && (#[trigger] out[i]).0 == es[j].0 by {
                    if out[i].0 == es.last().0 {
                        assert(out[i].0 == es[es.len() - 1].0);
                    } else {
                        assert(out[i] == r[i]);
                        let j = choose|j: int|
                            0 <= j < es.drop_last().len() && r[i].0 == es.drop_last()[j].0;
                        assert(es.drop_last()[j] == es[j]);
                        assert(out[i].0 == es[j].0);
                    }
                }
            },
            _ => {},
        }
    }
}

/// A parsed action registry keeps its keys distinct, and each action is
/// named after its own key.
pub proof fn lemma_actions_props(es: Seq<(Seq<char>, DocModel)>)
    ensures
        match spec_actions(es) {
            Option::Some(r) => {
                &&& auniq(r)
                &&& forall|i: int|
                    0 <= i < r.len() ==> (#[trigger] r[i]).1.name == r[i].0
                &&& forall|i: int|
                    0 <= i < r.len() ==> exists|j: int|
                        0 <= j < es.len() && (#[trigger] r[i]).0 == es[j].0
            },
            Option::None => true,
        },
    decreases es.len(),
{
    if es.len() > 0 {
        lemma_actions_props(es.drop_last());
        match (spec_actions(es.drop_last()), spec_action_entry(es.last())) {
            (Option::Some(r), Option::Some(a)) => {
                lemma_ainsert_uniq(r, es.last().0, a);
                let out = ainsert(r, es.last().0, a);
                assert(a.name == es.last().0);
                if ahas(r, es.last().0) {
                    let w = aidx(r, es.last().0);
                    assert(forall|i: int|
                        0 <= i < out.len() && i != w ==> out[i] == r[i]);
                }
                assert forall|i: int| 0 <= i < out.len() implies exists|j: int|
                    0 <= j < es.len() && (#[trigger] out[i]).0 == es[j].0 by {
                    if out[i].0 == es.last().0 {
                        assert(out[i].0 == es[es.len() - 1].0);
                    } else {
                        assert(out[i] == r[i]);
                        let j = choose|j: int|
                            0 <= j < es.drop_last().len() && r[i].0 == es.drop_last()[j].0;
                        assert(es.drop_last()[j] == es[j]);
                        assert(out[i].0 == es[j].0);
                    }
                }
            },
            _ => {},
        }
    }
}

/// A list with a non-string element is not a list of strings.
pub proof fn lemma_strs_none(xs: Seq<DocModel>, i: int)
    requires
        0 <= i < xs.len(),
        !(xs[i] matches DocModel::Str(_)),
    ensures
        spec_strs(xs) == Option::<Seq<Seq<char>>>::None,
    decreases xs.len(),
{
    if i < xs.len() - 1 {
        lemma_strs_none(xs.drop_last(), i);
    }
}

/// A target registry with one bad entry does not parse.
pub proof fn lemma_targets_none(es: Seq<(Seq<char>, DocModel)>, i: int)
    requires
        0 <= i < es.len(),
        spec_target_entry(es[i]) == Option::<TargetModel>::None,
    ensures
        spec_targets(es) == Option::<Seq<(Seq<char>, TargetModel)>>::None,
    decreases es.len(),
{
    if i < es.len() - 1 {
        lemma_targets_none(es.drop_last(), i);
    }
}

/// An action registry with one bad entry does not parse.
pub proof fn lemma_actions_none(es: Seq<(Seq<char>, DocModel)>, i: int)
    requires
        0 <= i < es.len(),
        spec_action_entry(es[i]) == Option::<ActionModel>::None,
    ensures
        spec_actions(es) == Option::<Seq<(Seq<char>, ActionModel)>>::None,
    decreases es.len(),
{
    if i < es.len() - 1 {
        lemma_actions_none(es.drop_last(), i);
    }
}

/// Every parsed configuration is well formed, and every target and action
/// carries a name equal to its owning map key.
pub proof fn lemma_config_names_bound(m: DocModel)
    requires
        spec_config(m) matches Option::Some(_),
    ensures
        config_wf(spec_config(m)->Some_0),
        names_bound(spec_config(m)->Some_0),
{
    match m {
        DocModel::Dict(es) => {
            match (dlookup(es, "targets"@), dlookup(es, "actions"@)) {
                (
                    Option::Some(DocModel::Dict(ts)),
                    Option::Some(DocModel::Dict(acs)),
                ) => {
                    lemma_targets_props(ts);
                    lemma_actions_props(acs);
                },
                _ => {},
            }
        },
        _ => {},
    }
}

/// Every target and action of a parsed configuration carries a non-empty
/// name, as long as the document's own map keys are non-empty (a document
/// with an empty map key yields an entity with that empty name).
pub proof fn lemma_config_names_nonempty(m: DocModel, c: ConfigModel)
    requires
        spec_config(m) == Option::Some(c),
        forall|j: int|
            0 <= j < dlookup(m->Dict_0, "targets"@)->Some_0->Dict_0.len() ==> (
            #[trigger] dlookup(m->Dict_0, "targets"@)->Some_0->Dict_0[j]).0.len() > 0,
        forall|j: int|
            0 <= j < dlookup(m->Dict_0, "actions"@)->Some_0->Dict_0.len() ==> (
            #[trigger] dlookup(m->Dict_0, "actions"@)->Some_0->Dict_0[j]).0.len() > 0,
    ensures
        forall|i: int|
            0 <= i < c.targets.len() ==> (#[trigger] c.targets[i]).1.name.len() > 0,
        forall|i: int|
            0 <= i < c.actions.len() ==> (#[trigger] c.actions[i]).1.name.len() > 0,
{
    match m {
        DocModel::Dict(es) => {
            match (dlookup(es, "targets"@), dlookup(es, "actions"@)) {
                (
                    Option::Some(DocModel::Dict(ts)),
                    Option::Some(DocModel::Dict(acs)),
                ) => {
                    lemma_targets_props(ts);
                    lemma_actions_props(acs);
                },
                _ => {},
            }
        },
        _ => {},
    }
}

/// Reads a required string field.
fn req_str(es: &Vec<(String, DocValue)>, k: &str, Ghost(fuel): Ghost<nat>) -> (r: Option<
    String,
>)
    requires
        fuel >= 1,
    ensures
        match r {
            Option::Some(s) => spec_req_str(dict_model(es@, fuel), k@) == Option::Some(
                s@,
            ),
            Option::None => spec_req_str(dict_model(es@, fuel), k@) == Option::<
                Seq<char>,
            >::None,
        },
{
    match dict_get(es, k, Ghost(fuel)) {
        Option::Some(v) => match as_str(v, Ghost(fuel)) {
            Option::Some(s) => Some(s.clone()),
            Option::None => None,
        },
        Option::None => None,
    }
}

/// Reads a required boolean field.
fn req_bool(es: &Vec<(String, DocValue)>, k: &str, Ghost(fuel): Ghost<nat>) -> (r: Option<
    bool,
>)
    requires
        fuel >= 1,
    ensures
        match r {
            Option::Some(b) => spec_req_bool(dict_model(es@, fuel), k@) == Option::Some(
                b,
            ),
            Option::None => spec_req_bool(dict_model(es@, fuel), k@) == Option::<
                bool,
            >::None,
        },
{
    match dict_get(es, k, Ghost(fuel)) {
        Option::Some(v) => match as_bool(v, Ghost(fuel)) {
            Option::Some(b) => Some(b),
            Option::None => None,
        },
        Option::None => None,
    }
}

/// Reads a required integer field that must fit in a `u64`.
fn req_u64(es: &Vec<(String, DocValue)>, k: &str, Ghost(fuel): Ghost<nat>) -> (r: Option<
    u64,
>)
    requires
        fuel >= 1,
    ensures
        match r {
            Option::Some(n) => spec_req_u64(dict_model(es@, fuel), k@) == Option::Some(
                n,
            ),
            Option::None => spec_req_u64(dict_model(es@, fuel), k@) == Option::<
                u64,
            >::None,
        },
{
    match dict_get(es, k, Ghost(fuel)) {
        Option::Some(v) => match as_int(v, Ghost(fuel)) {
            Option::Some(n) => if n >= 0 && n <= u64::MAX as i128 {
                Some(n as u64)
            } else {
                None
            },
            Option::None => None,
        },
        Option::None => None,
    }
}

/// Reads a required integer field that must fit in a `u32`.
fn req_u32(es: &Vec<(String, DocValue)>, k: &str, Ghost(fuel): Ghost<nat>) -> (r: Option<
    u32,
>)
    requires
        fuel >= 1,
    ensures
        match r {
            Option::Some(n) => spec_req_u32(dict_model(es@, fuel), k@) == Option::Some(
                n,
            ),
            Option::None => spec_req_u32(dict_model(es@, fuel), k@) == Option::<
                u32,
            >::None,
        },
{
    match dict_get(es, k, Ghost(fuel)) {
        Option::Some(v) => match as_int(v, Ghost(fuel)) {
            Option::Some(n) => if n >= 0 && n <= u32::MAX as i128 {
                Some(n as u32)
            } else {
                None
            },
            Option::None => None,
        },
        Option::None => None,
    }
}

/// Reads a list whose elements must all be strings.
fn parse_strs(xs: &Vec<DocValue>, Ghost(fuel): Ghost<nat>) -> (r: Option<Vec<String>>)
    requires
        fuel >= 1,
    ensures
        match r {
            Option::Some(v) => spec_strs(list_model(xs@, fuel)) == Option::Some(
                v.deep_view(),
            ),
            Option::None => spec_strs(list_model(xs@, fuel)) == Option::<
                Seq<Seq<char>>,
            >::None,
        },
{
    let ghost ms = list_model(xs@, fuel);
    let mut out: Vec<String> = Vec::new();
    let n = xs.len();
    let mut i: usize = 0;
    proof {
        assert(ms.subrange(0, 0) =~= Seq::<DocModel>::empty());
        assert(out.deep_view() =~= Seq::<Seq<char>>::empty());
    }
    while i < n
        invariant
            fuel >= 1,
            ms == list_model(xs@, fuel),
            n == xs@.len(),
            n == ms.len(),
            0 <= i <= n,
            spec_strs(ms.subrange(0, i as int)) == Option::Some(out.deep_view()),
        decreases n - i,
    {
        match as_str(&xs[i], Ghost(fuel)) {
            Option::Some(s) => {
                let ghost prev = out.deep_view();
                out.push(s.clone());
                proof {
                    let sub = ms.subrange(0, i + 1);
                    assert(sub.drop_last() =~= ms.subrange(0, i as int));
                    assert(sub.last() == ms[i as int]);
                    assert(ms[i as int] == DocModel::Str(s@));
                    assert(out.deep_view() =~= prev.push(s@));
                }
            },
            Option::None => {
                proof {
                    assert(ms[i as int] == doc_model_at(xs@[i as int], fuel));
                    lemma_strs_none(ms, i as int);
                }
                return None;
            },
        }
        i = i + 1;
    }
    proof {
        assert(ms.subrange(0, n as int) =~= ms);
    }
    Some(out)
}

/// Parses the `targets` mapping: each entry's body must carry a string
/// `selector`, and the entry's key becomes the target's name.
fn parse_targets(es: &Vec<(String, DocValue)>, Ghost(fuel): Ghost<nat>) -> (r: Option<
    StrMap<Target>,
>)
    requires
        fuel >= 2,
    ensures
        match r {
            Option::Some(m) => spec_targets(dict_model(es@, fuel)) == Option::Some(m@)
                && auniq(m@),
            Option::None => spec_targets(dict_model(es@, fuel)) == Option::<
                Seq<(Seq<char>, TargetModel)>,
            >::None,
        },
{
    let ghost ms = dict_model(es@, fuel);
    let mut out: StrMap<Target> = StrMap::new();
    let n = es.len();
    let mut i: usize = 0;
    proof {
        assert(ms.subrange(0, 0) =~= Seq::<(Seq<char>, DocModel)>::empty());
    }
    while i < n
        invariant
            fuel >= 2,
            ms == dict_model(es@, fuel),
            n == es@.len(),
            n == ms.len(),
            0 <= i <= n,
            spec_targets(ms.subrange(0, i as int)) == Option::Some(out@),
            auniq(out@),
        decreases n - i,
    {
        proof {
            assert(ms[i as int] == (es@[i as int].0@, doc_model_at(es@[i as int].1, fuel)));
        }
        let body = match as_dict(&es[i].1, Ghost(fuel)) {
            Option::Some(b) => b,
            Option::None => {
                proof {
                    lemma_targets_none(ms, i as int);
                }
                return None;
            },
        };
        let sel = match req_str(body, "selector", Ghost((fuel - 1) as nat)) {
            Option::Some(s) => s,
            Option::None => {
                proof {
                    lemma_targets_none(ms, i as int);
                }
                return None;
            },
        };
        let name = es[i].0.clone();
        let ghost prev = out@;
        let ghost entry = spec_target_entry(ms[i as int]);
        out.insert(name, Target { name: es[i].0.clone(), selector: sel });
        proof {
            let sub = ms.subrange(0, i + 1);
            assert(sub.drop_last() =~= ms.subrange(0, i as int));
            assert(sub.last() == ms[i as int]);
            assert(entry == Option::Some(
                TargetModel { name: ms[i as int].0, selector: sel@ },
            ));
            assert(out@ == ainsert(prev, ms[i as int].0, entry->Some_0));
            assert(spec_targets(sub) == Option::Some(out@));
        }
        i = i + 1;
    }
    proof {
        assert(ms.subrange(0, n as int) =~= ms);
    }
    Some(out)
}

/// Parses one action body, discriminating the variant by which keys the
/// body carries.
fn parse_action_data(fs: &Vec<(String, DocValue)>, Ghost(fuel): Ghost<nat>) -> (r: Option<
    ActionData,
>)
    requires
        fuel >= 2,
    ensures
        match r {
            Option::Some(d) => spec_action_data(dict_model(fs@, fuel)) == Option::Some(
                d.deep_view(),
            ),
            Option::None => spec_action_data(dict_model(fs@, fuel)) == Option::<
                ActionDataModel,
            >::None,
        },
{
    if dict_get(fs, "selector", Ghost(fuel)).is_some() {
        match req_str(fs, "selector", Ghost(fuel)) {
            Option::Some(sel) => Some(
                ActionData::ActionClick(ActionClick { selector: sel }),
            ),
            Option::None => None,
        }
    } else if dict_get(fs, "duration", Ghost(fuel)).is_some() {
        match req_u32(fs, "duration", Ghost(fuel)) {
            Option::Some(d) => Some(ActionData::ActionWait(ActionWait { duration: d })),
            Option::None => None,
        }
    } else if dict_get(fs, "text", Ghost(fuel)).is_some() {
        match (req_str(fs, "target", Ghost(fuel)), req_str(fs, "text", Ghost(fuel))) {
            (Option::Some(t), Option::Some(x)) => Some(
                ActionData::ActionTypeInto(ActionTypeInto { target: t, text: x }),
            ),
            _ => None,
        }
    } else if dict_get(fs, "target", Ghost(fuel)).is_some() && dict_get(
        fs,
        "format",
        Ghost(fuel),
    ).is_some() {
        match (req_str(fs, "target", Ghost(fuel)), req_str(fs, "format", Ghost(fuel))) {
            (Option::Some(t), Option::Some(f)) => Some(
                ActionData::ActionScreenshot(ActionScreenshot { target: t, format: f }),
            ),
            _ => None,
        }
    } else {
        let tv = match dict_get(fs, "targets", Ghost(fuel)) {
            Option::Some(v) => v,
            Option::None => {
                return None;
            },
        };
        if dict_get(fs, "flatten", Ghost(fuel)).is_none() {
            return None;
        }
        let xs = match as_list(tv, Ghost(fuel)) {
            Option::Some(xs) => xs,
            Option::None => {
                return None;
            },
        };
        match (parse_strs(xs, Ghost((fuel - 1) as nat)), req_bool(
            fs,
            "flatten",
            Ghost(fuel),
        )) {
            (Option::Some(ts), Option::Some(fl)) => Some(
                ActionData::ActionSave(ActionSave { targets: ts, flatten: fl }),
            ),
            _ => None,
        }
    }
}

/// Parses the `actions` mapping; the entry's key becomes the action's name.
fn parse_actions(es: &Vec<(String, DocValue)>, Ghost(fuel): Ghost<nat>) -> (r: Option<
    StrMap<Action>,
>)
    requires
        fuel >= 3,
    ensures
        match r {
            Option::Some(m) => spec_actions(dict_model(es@, fuel)) == Option::Some(m@)
                && auniq(m@),
            Option::None => spec_actions(dict_model(es@, fuel)) == Option::<
                Seq<(Seq<char>, ActionModel)>,
            >::None,
        },
{
    let ghost ms = dict_model(es@, fuel);
    let mut out: StrMap<Action> = StrMap::new();
    let n = es.len();
    let mut i: usize = 0;
    proof {
        assert(ms.subrange(0, 0) =~= Seq::<(Seq<char>, DocModel)>::empty());
    }
    while i < n
        invariant
            fuel >= 3,
            ms == dict_model(es@, fuel),
            n == es@.len(),
            n == ms.len(),
            0 <= i <= n,
            spec_actions(ms.subrange(0, i as int)) == Option::Some(out@),
            auniq(out@),
        decreases n - i,
    {
        proof {
            assert(ms[i as int] == (es@[i as int].0@, doc_model_at(es@[i as int].1, fuel)));
        }
        let body = match as_dict(&es[i].1, Ghost(fuel)) {
            Option::Some(b) => b,
            Option::None => {
                proof {
                    lemma_actions_none(ms, i as int);
                }
                return None;
            },
        };
        let data = match parse_action_data(body, Ghost((fuel - 1) as nat)) {
            Option::Some(d) => d,
            Option::None => {
                proof {
                    lemma_actions_none(ms, i as int);
                }
                return None;
            },
        };
        let ghost prev = out@;
        let ghost entry = spec_action_entry(ms[i as int]);
        let ghost dm = data.deep_view();
        out.insert(es[i].0.clone(), Action { name: es[i].0.clone(), data });
        proof {
            let sub = ms.subrange(0, i + 1);
            assert(sub.drop_last() =~= ms.subrange(0, i as int));
            assert(sub.last() == ms[i as int]);
            assert(entry == Option::Some(ActionModel { name: ms[i as int].0, data: dm }));
            assert(out@ == ainsert(prev, ms[i as int].0, entry->Some_0));
            assert(spec_actions(sub) == Option::Some(out@));
        }
        i = i + 1;
    }
    proof {
        assert(ms.subrange(0, n as int) =~= ms);
    }
    Some(out)
}

/// A load failure with its reason.
fn cfg_err(reason: &str) -> ConfigError {
    ConfigError { reason: reason.to_owned() }
}

/// Builds a configuration from a parsed document tree: the settings fields
/// sit beside the `targets` and `actions` mappings and the `steps` list;
/// unknown top-level keys are ignored, and every target and action is named
/// after its map key.
pub fn config_from_doc(doc: &DocValue) -> (r: Result<PipelineConfig, ConfigError>)
    ensures
        match r {
            Result::Ok(cfg) => spec_config(doc_model(*doc)) == Option::Some(
                cfg.deep_view(),
            ),
            Result::Err(_) => spec_config(doc_model(*doc)) == Option::<ConfigModel>::None,
        },
{
    let es = match as_dict(doc, Ghost(DOC_DEPTH as nat)) {
        Option::Some(es) => es,
        Option::None => {
            return Err(cfg_err("document is not a mapping"));
        },
    };
    let name = match req_str(es, "name", Ghost(4nat)) {
        Option::Some(s) => s,
        Option::None => {
            return Err(cfg_err("missing or invalid field: name"));
        },
    };
    let url = match req_str(es, "url", Ghost(4nat)) {
        Option::Some(s) => s,
        Option::None => {
            return Err(cfg_err("missing or invalid field: url"));
        },
    };
    let headless = match req_bool(es, "headless", Ghost(4nat)) {
        Option::Some(b) => b,
        Option::None => {
            return Err(cfg_err("missing or invalid field: headless"));
        },
    };
    let out_dir = match req_str(es, "out_dir", Ghost(4nat)) {
        Option::Some(s) => s,
        Option::None => {
            return Err(cfg_err("missing or invalid field: out_dir"));
        },
    };
    let timeout = match req_u64(es, "timeout", Ghost(4nat)) {
        Option::Some(n) => n,
        Option::None => {
            return Err(cfg_err("missing or invalid field: timeout"));
        },
    };
    let targets_v = match dict_get(es, "targets", Ghost(4nat)) {
        Option::Some(v) => v,
        Option::None => {
            return Err(cfg_err("missing field: targets"));
        },
    };
    let tes = match as_dict(targets_v, Ghost(4nat)) {
        Option::Some(x) => x,
        Option::None => {
            return Err(cfg_err("targets is not a mapping"));
        },
    };
    let targets = match parse_targets(tes, Ghost(3nat)) {
        Option::Some(m) => m,
        Option::None => {
            return Err(cfg_err("invalid target"));
        },
    };
    let actions_v = match dict_get(es, "actions", Ghost(4nat)) {
        Option::Some(v) => v,
        Option::None => {
            return Err(cfg_err("missing field: actions"));
        },
    };
    let aes = match as_dict(actions_v, Ghost(4nat)) {
        Option::Some(x) => x,
        Option::None => {
            return Err(cfg_err("actions is not a mapping"));
        },
    };
    let actions = match parse_actions(aes, Ghost(3nat)) {
        Option::Some(m) => m,
        Option::None => {
            return Err(cfg_err("invalid action"));
        },
    };
    let steps_v = match dict_get(es, "steps", Ghost(4nat)) {
        Option::Some(v) => v,
        Option::None => {
            return Err(cfg_err("missing field: steps"));
        },
    };
    let sxs = match as_list(steps_v, Ghost(4nat)) {
        Option::Some(x) => x,
        Option::None => {
            return Err(cfg_err("steps is not a list"));
        },
    };
    let steps = match parse_strs(sxs, Ghost(3nat)) {
        Option::Some(v) => v,
        Option::None => {
            return Err(cfg_err("steps must be strings"));
        },
    };
    Ok(
        PipelineConfig {
            pipeline: Pipeline { name, url, headless, out_dir, timeout },
            targets,
            actions,
            steps,
        },
    )
}

/// The YAML crate's parsed document node.
#[verifier::external_type_specification]
#[verifier::external_body]
pub struct ExYamlValue(serde_yaml::Value);

/// The YAML crate's numeric scalar.
#[verifier::external_type_specification]
#[verifier::external_body]
pub struct ExYamlNumber(serde_yaml::Number);

/// The YAML crate's mapping node.
#[verifier::external_type_specification]
#[verifier::external_body]
pub struct ExYamlMapping(serde_yaml::Mapping);

/// What the YAML crate's parse of a document text reads as, as a plain
/// document model; `None` when the text is not a well-formed document.
pub uninterp spec fn yaml_doc_of(text: Seq<char>) -> Option<DocModel>;

/// Relies on serde_yaml::from_str: the parse of a YAML document depends on
/// the text alone. The parsed tree is converted to plain values.
#[verifier::external_body]
fn parse_yaml(text: &str) -> (r: Option<DocValue>)
    ensures
        match r {
            Option::Some(d) => yaml_doc_of(text@) == Option::Some(doc_model(d)),
            Option::None => yaml_doc_of(text@) == Option::<DocModel>::None,
        },
{
    match serde_yaml::from_str::<serde_yaml::Value>(text) {
        Ok(v) => Some(yaml_to_doc(&v, DOC_DEPTH)),
        Err(_) => None,
    }
}

/// Relies on serde_yaml::Value: converts a node to a plain value, one
/// variant arm each; floats, tagged nodes and nodes below the depth bound
/// become `Other`.
#[verifier::external_body]
fn yaml_to_doc(v: &serde_yaml::Value, depth: usize) -> DocValue {
    if depth == 0 {
        return DocValue::Other;
    }
    match v {
        serde_yaml::Value::Null => DocValue::Null,
        serde_yaml::Value::Bool(b) => DocValue::Bool(*b),
        serde_yaml::Value::Number(n) => yaml_num(n),
        serde_yaml::Value::String(s) => DocValue::Str(s.clone()),
        serde_yaml::Value::Sequence(xs) => DocValue::List(yaml_list(xs, depth - 1)),
        serde_yaml::Value::Mapping(m) => DocValue::Dict(yaml_dict(m, depth - 1)),
        serde_yaml::Value::Tagged(_) => DocValue::Other,
    }
}

/// Relies on serde_yaml::Number: an integer is moved over; a float becomes
/// `Other`.
#[verifier::external_body]
fn yaml_num(n: &serde_yaml::Number) -> DocValue {
    match (n.as_i64(), n.as_u64()) {
        (Some(i), _) => DocValue::Int(i as i128),
        (None, Some(u)) => DocValue::Int(u as i128),
        _ => DocValue::Other,
    }
}

/// Relies on serde_yaml::Sequence: converts each element in order.
#[verifier::external_body]
fn yaml_list(xs: &Vec<serde_yaml::Value>, depth: usize) -> Vec<DocValue> {
    let mut out = Vec::new();
    for x in xs.iter() {
        out.push(yaml_to_doc(x, depth));
    }
    out
}

/// Relies on serde_yaml::Mapping: converts each entry in document order;
/// an entry whose key is not a string is dropped.
#[verifier::external_body]
fn yaml_dict(m: &serde_yaml::Mapping, depth: usize) -> Vec<(String, DocValue)> {
    let mut out = Vec::new();
    for (k, v) in m.iter() {
        if let serde_yaml::Value::String(s) = k {
            out.push((s.clone(), yaml_to_doc(v, depth)));
        }
    }
    out
}

/// Loads a pipeline configuration from a document text: the text is parsed
/// as YAML and the configuration is built from the resulting tree.
pub fn load_config(text: &str) -> (r: Result<PipelineConfig, ConfigError>)
    ensures
        match yaml_doc_of(text@) {
            Option::Some(m) => match r {
                Result::Ok(cfg) => spec_config(m) == Option::Some(cfg.deep_view()),
                Result::Err(_) => spec_config(m) == Option::<ConfigModel>::None,
            },
            Option::None => r matches Result::Err(_),
        },
{
    match parse_yaml(text) {
        Option::Some(d) => config_from_doc(&d),
        Option::None => Err(cfg_err("document is missing or not well-formed")),
    }
}

} // verus!
