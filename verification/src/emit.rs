//! Serializing the parsed registries back into document form. The ensures
//! state the round trip: a registry written out and parsed again reads
//! back equal, names and bodies included.

use vstd::prelude::*;
use crate::doc::{DocValue, dict_model, list_model};
use crate::load::{
    spec_action_entry, spec_actions, spec_strs, spec_target_entry, spec_targets,
};
use crate::model::{Action, ActionData, ActionModel, Target, TargetModel};
use crate::strmap::{StrMap, ahas, ainsert, auniq};

verus! {

/// Writes a list of strings as a document list.
fn strs_to_doc(v: &Vec<String>) -> (r: Vec<DocValue>)
    ensures
        spec_strs(list_model(r@, 1)) == Option::Some(v.deep_view()),
{
    let ghost vm = v.deep_view();
    let mut out: Vec<DocValue> = Vec::new();
    let n = v.len();
    let mut i: usize = 0;
    proof {
        assert(list_model(out@, 1) =~= Seq::<crate::doc::DocModel>::empty());
        assert(vm.subrange(0, 0) =~= Seq::<Seq<char>>::empty());
        assert(spec_strs(list_model(out@, 1)) == Option::Some(vm.subrange(0, 0)));
    }
    while i < n
        invariant
            vm == v.deep_view(),
            n == v@.len(),
            n == vm.len(),
            0 <= i <= n,
            out@.len() == i,
            spec_strs(list_model(out@, 1)) == Option::Some(vm.subrange(0, i as int)),
        decreases n - i,
    {
        let ghost before = list_model(out@, 1);
        out.push(DocValue::Str(v[i].clone()));
        proof {
            let after = list_model(out@, 1);
            assert(after.drop_last() =~= before);
            assert(after.last() == crate::doc::DocModel::Str(vm[i as int]));
            assert(vm.subrange(0, i + 1) =~= vm.subrange(0, i as int).push(
                vm[i as int],
            ));
        }
        i = i + 1;
    }
    proof {
        assert(vm.subrange(0, n as int) =~= vm);
    }
    out
}

/// Writes one target's body.
fn target_body(t: &Target) -> (r: DocValue)
    ensures
        forall|k: Seq<char>|
            spec_target_entry((k, crate::doc::doc_model_at(r, 3))) == Option::Some(
                TargetModel { name: k, selector: t.selector@ },
            ),
{
    let mut fs: Vec<(String, DocValue)> = Vec::new();
    fs.push(("selector".to_owned(), DocValue::Str(t.selector.clone())));
    let r = DocValue::Dict(fs);
    proof {
        let m = crate::doc::doc_model_at(r, 3);
        let fsm = dict_model(r->Dict_0@, 2);
        assert(fsm.len() == 1);
        assert(fsm[0] == ("selector"@, crate::doc::DocModel::Str(t.selector@)));
        assert(crate::doc::dlookup(fsm, "selector"@) == Option::Some(
            crate::doc::DocModel::Str(t.selector@),
        ));
    }
    r
}

/// Writes the target registry as a document mapping. Parsing the result
/// reads back exactly this registry: the round trip preserves names and
/// bodies.
pub fn targets_to_doc(m: &StrMap<Target>) -> (r: DocValue)
    requires
        auniq(m@),
        forall|i: int| 0 <= i < m@.len() ==> (#[trigger] m@[i]).1.name == m@[i].0,
    ensures
        spec_targets(dict_model(r->Dict_0@, 3)) == Option::Some(m@),
        r matches DocValue::Dict(_),
{
    let mut out: Vec<(String, DocValue)> = Vec::new();
    let n = m.len();
    let mut i: usize = 0;
    proof {
        assert(dict_model(out@, 3) =~= Seq::<(Seq<char>, crate::doc::DocModel)>::empty());
        assert(m@.subrange(0, 0) =~= Seq::<(Seq<char>, TargetModel)>::empty());
    }
    while i < n
        invariant
            auniq(m@),
            forall|j: int| 0 <= j < m@.len() ==> (#[trigger] m@[j]).1.name == m@[j].0,
            n == m@.len(),
            0 <= i <= n,
            out@.len() == i,
            spec_targets(dict_model(out@, 3)) == Option::Some(m@.subrange(0, i as int)),
        decreases n - i,
    {
        let ghost before = dict_model(out@, 3);
        let e = m.entry_at(i);
        let body = target_body(e.1);
        out.push((e.0.clone(), body));
        proof {
            let after = dict_model(out@, 3);
            assert(after.drop_last() =~= before);
            assert(after.last() == (m@[i as int].0, crate::doc::doc_model_at(body, 3)));
            assert(spec_target_entry(after.last()) == Option::Some(
                TargetModel { name: m@[i as int].0, selector: m@[i as int].1.selector },
            ));
            assert(m@[i as int].1 == TargetModel {
                name: m@[i as int].0,
                selector: m@[i as int].1.selector,
            });
            let pre = m@.subrange(0, i as int);
            assert(forall|j: int| 0 <= j < i ==> m@[j].0 != m@[i as int].0);
            assert(!ahas(pre, m@[i as int].0));
            assert(ainsert(pre, m@[i as int].0, m@[i as int].1) =~= m@.subrange(
                0,
                i + 1,
            ));
        }
        i = i + 1;
    }
    proof {
        assert(m@.subrange(0, n as int) =~= m@);
    }
    DocValue::Dict(out)
}

/// Writes one action's body, in the shape its variant is discriminated by.
fn action_body(a: &Action) -> (r: DocValue)
    ensures
        forall|k: Seq<char>|
            spec_action_entry((k, crate::doc::doc_model_at(r, 3))) == Option::Some(
                ActionModel { name: k, data: a.data.deep_view() },
            ),
{
    proof {
        reveal_strlit("selector");
        reveal_strlit("duration");
        reveal_strlit("text");
        reveal_strlit("target");
        reveal_strlit("targets");
        reveal_strlit("flatten");
        reveal_strlit("format");
        assert("selector"@.len() == 8);
        assert("duration"@.len() == 8);
        assert("text"@.len() == 4);
        assert("target"@.len() == 6);
        assert("targets"@.len() == 7);
        assert("flatten"@.len() == 7);
        assert("format"@.len() == 6);
    }
    let mut fs: Vec<(String, DocValue)> = Vec::new();
    match &a.data {
        ActionData::ActionClick(c) => {
            fs.push(("selector".to_owned(), DocValue::Str(c.selector.clone())));
            let r = DocValue::Dict(fs);
            proof {
                let fsm = dict_model(r->Dict_0@, 2);
                assert(fsm.len() == 1);
                crate::doc::lemma_dlookup_upto2(fsm);
                assert(fsm[0] == ("selector"@, crate::doc::DocModel::Str(c.selector@)));
                assert(crate::load::spec_action_data(fsm) == Option::Some(
                    a.data.deep_view(),
                ));
            }
            r
        },
        ActionData::ActionWait(w) => {
            fs.push(("duration".to_owned(), DocValue::Int(w.duration as i128)));
            let r = DocValue::Dict(fs);
            proof {
                let fsm = dict_model(r->Dict_0@, 2);
                assert(fsm.len() == 1);
                assert(fsm[0] == ("duration"@, crate::doc::DocModel::Int(
                    w.duration as i128,
                )));
                crate::doc::lemma_dlookup_upto2(fsm);
                assert(("duration"@)[0] != ("selector"@)[0]);
                assert("duration"@ != "selector"@);
                assert(crate::load::spec_action_data(fsm) == Option::Some(
                    a.data.deep_view(),
                ));
            }
            r
        },
        ActionData::ActionTypeInto(t) => {
            fs.push(("target".to_owned(), DocValue::Str(t.target.clone())));
            fs.push(("text".to_owned(), DocValue::Str(t.text.clone())));
            let r = DocValue::Dict(fs);
            proof {
                let fsm = dict_model(r->Dict_0@, 2);
                assert(fsm.len() == 2);
                crate::doc::lemma_dlookup_upto2(fsm);
                assert(fsm[0] == ("target"@, crate::doc::DocModel::Str(t.target@)));
                assert(fsm[1] == ("text"@, crate::doc::DocModel::Str(t.text@)));
                assert(crate::doc::dlookup(fsm, "selector"@) == Option::<
                    crate::doc::DocModel,
                >::None);
                assert(crate::doc::dlookup(fsm, "duration"@) == Option::<
                    crate::doc::DocModel,
                >::None);
                assert(crate::doc::dlookup(fsm, "text"@) == Option::Some(
                    crate::doc::DocModel::Str(t.text@),
                ));
                assert(crate::doc::dlookup(fsm, "target"@) == Option::Some(
                    crate::doc::DocModel::Str(t.target@),
                ));
                assert(crate::load::spec_req_str(fsm, "target"@) == Option::Some(
                    t.target@,
                ));
                assert(crate::load::spec_req_str(fsm, "text"@) == Option::Some(t.text@));
                assert(crate::load::spec_action_data(fsm) == Option::Some(
                    a.data.deep_view(),
                ));
            }
            r
        },
        ActionData::ActionScreenshot(sd) => {
            fs.push(("target".to_owned(), DocValue::Str(sd.target.clone())));
            fs.push(("format".to_owned(), DocValue::Str(sd.format.clone())));
            let r = DocValue::Dict(fs);
            proof {
                let fsm = dict_model(r->Dict_0@, 2);
                assert(fsm.len() == 2);
                crate::doc::lemma_dlookup_upto2(fsm);
                assert(fsm[0] == ("target"@, crate::doc::DocModel::Str(sd.target@)));
                assert(fsm[1] == ("format"@, crate::doc::DocModel::Str(sd.format@)));
                assert(("target"@)[0] != ("format"@)[0]);
                assert("target"@ != "format"@);
                assert(crate::load::spec_action_data(fsm) == Option::Some(
                    a.data.deep_view(),
                ));
            }
            r
        },
        ActionData::ActionSave(sv) => {
            fs.push(("targets".to_owned(), DocValue::List(strs_to_doc(&sv.targets))));
            fs.push(("flatten".to_owned(), DocValue::Bool(sv.flatten)));
            let r = DocValue::Dict(fs);
            proof {
                let fsm = dict_model(r->Dict_0@, 2);
                assert(fsm.len() == 2);
                crate::doc::lemma_dlookup_upto2(fsm);
                assert(fsm[0].0 == "targets"@);
                assert(fsm[1] == ("flatten"@, crate::doc::DocModel::Bool(sv.flatten)));
                assert(("targets"@)[0] != ("flatten"@)[0]);
                assert("targets"@ != "flatten"@);
                assert(crate::load::spec_action_data(fsm) == Option::Some(
                    a.data.deep_view(),
                ));
            }
            r
        },
    }
}

/// Writes the action registry as a document mapping. Parsing the result
/// reads back exactly this registry: the round trip preserves names and
/// bodies.
pub fn actions_to_doc(m: &StrMap<Action>) -> (r: DocValue)
    requires
        auniq(m@),
        forall|i: int| 0 <= i < m@.len() ==> (#[trigger] m@[i]).1.name == m@[i].0,
    ensures
        spec_actions(dict_model(r->Dict_0@, 3)) == Option::Some(m@),
        r matches DocValue::Dict(_),
{
    let mut out: Vec<(String, DocValue)> = Vec::new();
    let n = m.len();
    let mut i: usize = 0;
    proof {
        assert(dict_model(out@, 3) =~= Seq::<(Seq<char>, crate::doc::DocModel)>::empty());
        assert(m@.subrange(0, 0) =~= Seq::<(Seq<char>, ActionModel)>::empty());
    }
    while i < n
        invariant
            auniq(m@),
            forall|j: int| 0 <= j < m@.len() ==> (#[trigger] m@[j]).1.name == m@[j].0,
            n == m@.len(),
            0 <= i <= n,
            out@.len() == i,
            spec_actions(dict_model(out@, 3)) == Option::Some(m@.subrange(0, i as int)),
        decreases n - i,
    {
        let ghost before = dict_model(out@, 3);
        let e = m.entry_at(i);
        let body = action_body(e.1);
        out.push((e.0.clone(), body));
        proof {
            let after = dict_model(out@, 3);
            assert(after.drop_last() =~= before);
            assert(after.last() == (m@[i as int].0, crate::doc::doc_model_at(body, 3)));
            assert(spec_action_entry(after.last()) == Option::Some(
                ActionModel { name: m@[i as int].0, data: m@[i as int].1.data },
            ));
            assert(m@[i as int].1 == ActionModel {
                name: m@[i as int].0,
                data: m@[i as int].1.data,
            });
            let pre = m@.subrange(0, i as int);
            assert(forall|j: int| 0 <= j < i ==> m@[j].0 != m@[i as int].0);
            assert(!ahas(pre, m@[i as int].0));
            assert(ainsert(pre, m@[i as int].0, m@[i as int].1) =~= m@.subrange(
                0,
                i + 1,
            ));
        }
        i = i + 1;
    }
    proof {
        assert(m@.subrange(0, n as int) =~= m@);
    }
    DocValue::Dict(out)
}

} // verus!
