//! The step resolver: before execution, alias steps of the form
//! `"<new> from <existing>"` are rewritten into concrete named entities.
//! The source is looked up among the targets first, then the actions; a
//! clone is registered under the new name and the step becomes that bare
//! name. A step whose source resolves nowhere is dropped.

use vstd::prelude::*;
use crate::model::{Action, ActionModel, PipelineConfig, Target, TargetModel, config_wf};
use crate::strmap::{StrMap, aget, ahas, aidx, ainsert, auniq, lemma_ainsert_uniq};
use crate::strutil::{alias_sep, has_sep, is_sep_at, split_alias};

verus! {

/// The position of the first alias separator in `s`.
pub open spec fn sep_index(s: Seq<char>) -> int {
    choose|i: int|
        is_sep_at(s, i) && (forall|j: int| 0 <= j < i ==> !is_sep_at(s, j))
}

/// The new name an alias step declares: everything before the first
/// separator.
pub open spec fn alias_new(s: Seq<char>) -> Seq<char> {
    s.subrange(0, sep_index(s))
}

/// The source name an alias step refers to: everything after the first
/// separator.
pub open spec fn alias_src(s: Seq<char>) -> Seq<char> {
    s.subrange(sep_index(s) + alias_sep().len() as int, s.len() as int)
}

/// A minimal separator position is the `sep_index`.
pub proof fn lemma_sep_index(s: Seq<char>, w: int)
    requires
        is_sep_at(s, w),
        forall|j: int| 0 <= j < w ==> !is_sep_at(s, j),
    ensures
        sep_index(s) == w,
{
    assert(is_sep_at(s, w) && (forall|j: int| 0 <= j < w ==> !is_sep_at(s, j)));
    assert(exists|i: int|
        is_sep_at(s, i) && (forall|j: int| 0 <= j < i ==> !is_sep_at(s, j)));
    let i = sep_index(s);
    assert(is_sep_at(s, i) && (forall|j: int| 0 <= j < i ==> !is_sep_at(s, j)));
    if i < w {
        assert(!is_sep_at(s, i));
        assert(false);
    }
    if w < i {
        assert(!is_sep_at(s, w));
        assert(false);
    }
}

/// The new name of an alias step does not itself contain the separator.
pub proof fn lemma_alias_new_clean(s: Seq<char>)
    requires
        has_sep(s),
    ensures
        !has_sep(alias_new(s)),
{
    reveal_strlit(" from ");
    let w = choose|i: int| is_sep_at(s, i);
    assert(is_sep_at(s, w));
    let i = sep_index(s);
    lemma_sep_min_exists(s);
    let nn = alias_new(s);
    assert forall|j: int| !is_sep_at(nn, j) by {
        if is_sep_at(nn, j) {
            assert(0 <= j && j + alias_sep().len() <= nn.len());
            assert(nn.subrange(j, j + alias_sep().len() as int) =~= s.subrange(
                j,
                j + alias_sep().len() as int,
            ));
            assert(is_sep_at(s, j));
            assert(alias_sep().len() == 6);
            assert(j < i);
            assert(!is_sep_at(s, j));
        }
    }
}

/// A string with a separator has a first one.
pub proof fn lemma_sep_min_exists(s: Seq<char>)
    requires
        has_sep(s),
    ensures
        is_sep_at(s, sep_index(s)),
        forall|j: int| 0 <= j < sep_index(s) ==> !is_sep_at(s, j),
        0 <= sep_index(s),
{
    let w = choose|i: int| is_sep_at(s, i);
    assert(is_sep_at(s, w));
    lemma_sep_min_from(s, w);
}

/// Walks down from a known separator position to a minimal one.
proof fn lemma_sep_min_from(s: Seq<char>, w: int)
    requires
        is_sep_at(s, w),
    ensures
        is_sep_at(s, sep_index(s)),
        forall|j: int| 0 <= j < sep_index(s) ==> !is_sep_at(s, j),
        0 <= sep_index(s),
    decreases w,
{
    if forall|j: int| 0 <= j < w ==> !is_sep_at(s, j) {
        lemma_sep_index(s, w);
    } else {
        let w2 = choose|j: int| 0 <= j < w && is_sep_at(s, j);
        lemma_sep_min_from(s, w2);
    }
}

/// How the resolver transforms the registries and the step list, reading
/// the steps in order: a bare step is kept; an alias step whose source is a
/// target (or else an action) registers a renamed clone and becomes the new
/// name; an alias step that resolves nowhere is dropped.
pub open spec fn spec_resolve(
    tm: Seq<(Seq<char>, TargetModel)>,
    am: Seq<(Seq<char>, ActionModel)>,
    steps: Seq<Seq<char>>,
) -> (Seq<(Seq<char>, TargetModel)>, Seq<(Seq<char>, ActionModel)>, Seq<Seq<char>>)
    decreases steps.len(),
{
    if steps.len() == 0 {
        (tm, am, Seq::empty())
    } else {
        let s = steps[0];
        if !has_sep(s) {
            let r = spec_resolve(tm, am, steps.drop_first());
            (r.0, r.1, seq![s] + r.2)
        } else {
            let nn = alias_new(s);
            let src = alias_src(s);
            if ahas(tm, src) {
                let t = TargetModel { name: nn, selector: aget(tm, src).selector };
                let r = spec_resolve(ainsert(tm, nn, t), am, steps.drop_first());
                (r.0, r.1, seq![nn] + r.2)
            } else if ahas(am, src) {
                let a = ActionModel { name: nn, data: aget(am, src).data };
                let r = spec_resolve(tm, ainsert(am, nn, a), steps.drop_first());
                (r.0, r.1, seq![nn] + r.2)
            } else {
                spec_resolve(tm, am, steps.drop_first())
            }
        }
    }
}

/// After resolution no step contains the alias separator.
#[verifier::rlimit(60)]
pub proof fn lemma_resolved_steps_clean(
    tm: Seq<(Seq<char>, TargetModel)>,
    am: Seq<(Seq<char>, ActionModel)>,
    steps: Seq<Seq<char>>,
)
    ensures
        forall|i: int|
            0 <= i < spec_resolve(tm, am, steps).2.len() ==> !has_sep(
                #[trigger] spec_resolve(tm, am, steps).2[i],
            ),
    decreases steps.len(),
{
    if steps.len() > 0 {
        let s = steps[0];
        if !has_sep(s) {
            lemma_resolved_steps_clean(tm, am, steps.drop_first());
            let r2 = spec_resolve(tm, am, steps.drop_first()).2;
            let whole = seq![s] + r2;
            assert(spec_resolve(tm, am, steps).2 == whole);
            assert forall|k: int| 0 <= k < whole.len() implies !has_sep(whole[k]) by {
                if k > 0 {
                    assert(whole[k] == r2[k - 1]);
                }
            }
        } else {
            lemma_alias_new_clean(s);
            let nn = alias_new(s);
            let src = alias_src(s);
            if ahas(tm, src) {
                let t = TargetModel { name: nn, selector: aget(tm, src).selector };
                lemma_resolved_steps_clean(ainsert(tm, nn, t), am, steps.drop_first());
                let r2 = spec_resolve(ainsert(tm, nn, t), am, steps.drop_first()).2;
                let whole = seq![nn] + r2;
                assert(spec_resolve(tm, am, steps).2 == whole);
                assert forall|k: int| 0 <= k < whole.len() implies !has_sep(
                    whole[k],
                ) by {
                    if k > 0 {
                        assert(whole[k] == r2[k - 1]);
                    }
                }
            } else if ahas(am, src) {
                let a = ActionModel { name: nn, data: aget(am, src).data };
                lemma_resolved_steps_clean(tm, ainsert(am, nn, a), steps.drop_first());
                let r2 = spec_resolve(tm, ainsert(am, nn, a), steps.drop_first()).2;
                let whole = seq![nn] + r2;
                assert(spec_resolve(tm, am, steps).2 == whole);
                assert forall|k: int| 0 <= k < whole.len() implies !has_sep(
                    whole[k],
                ) by {
                    if k > 0 {
                        assert(whole[k] == r2[k - 1]);
                    }
                }
            } else {
                lemma_resolved_steps_clean(tm, am, steps.drop_first());
                assert(spec_resolve(tm, am, steps) == spec_resolve(
                    tm,
                    am,
                    steps.drop_first(),
                ));
            }
        }
    }
}

/// Resolution is idempotent: resolving an already resolved configuration
/// changes nothing.
pub proof fn lemma_resolve_idempotent(
    tm: Seq<(Seq<char>, TargetModel)>,
    am: Seq<(Seq<char>, ActionModel)>,
    steps: Seq<Seq<char>>,
)
    ensures
        ({
            let r = spec_resolve(tm, am, steps);
            spec_resolve(r.0, r.1, r.2) == r
        }),
    decreases steps.len(),
{
    let r = spec_resolve(tm, am, steps);
    lemma_resolved_steps_clean(tm, am, steps);
    lemma_resolve_keeps_clean(r.0, r.1, r.2);
}

/// Resolving a step list without separators keeps everything as it is.
pub proof fn lemma_resolve_keeps_clean(
    tm: Seq<(Seq<char>, TargetModel)>,
    am: Seq<(Seq<char>, ActionModel)>,
    steps: Seq<Seq<char>>,
)
    requires
        forall|i: int| 0 <= i < steps.len() ==> !has_sep(#[trigger] steps[i]),
    ensures
        spec_resolve(tm, am, steps) == (tm, am, steps),
    decreases steps.len(),
{
    if steps.len() == 0 {
        assert(spec_resolve(tm, am, steps).2 =~= steps);
    } else {
        assert(!has_sep(steps[0]));
        lemma_resolve_keeps_clean(tm, am, steps.drop_first());
        assert(seq![steps[0]] + steps.drop_first() =~= steps);
    }
}

/// Rewrites the alias steps of a configuration in place, registering the
/// renamed clones, and drops the alias steps that resolve nowhere. The
/// settings are untouched.
pub fn resolve_steps(cfg: &mut PipelineConfig)
    requires
        config_wf(old(cfg).deep_view()),
    ensures
        config_wf(final(cfg).deep_view()),
        final(cfg).pipeline.deep_view() == old(cfg).pipeline.deep_view(),
        ({
            let r = spec_resolve(
                old(cfg).deep_view().targets,
                old(cfg).deep_view().actions,
                old(cfg).deep_view().steps,
            );
            &&& final(cfg).deep_view().targets == r.0
            &&& final(cfg).deep_view().actions == r.1
            &&& final(cfg).deep_view().steps == r.2
        }),
{
    let ghost tm0 = cfg.targets@;
    let ghost am0 = cfg.actions@;
    let ghost sm0 = cfg.steps.deep_view();
    let ghost goal = spec_resolve(tm0, am0, sm0);
    let mut steps: Vec<String> = Vec::new();
    core::mem::swap(&mut steps, &mut cfg.steps);
    let n = steps.len();
    let mut out: Vec<String> = Vec::new();
    let mut i: usize = 0;
    proof {
        assert(sm0.subrange(0, n as int) =~= sm0);
        assert(out.deep_view() =~= Seq::<Seq<char>>::empty());
    }
    while i < n
        invariant
            n == steps@.len(),
            n == sm0.len(),
            sm0 == steps.deep_view(),
            0 <= i <= n,
            auniq(cfg.targets@),
            auniq(cfg.actions@),
            cfg.pipeline.deep_view() == old(cfg).pipeline.deep_view(),
            goal == spec_resolve(tm0, am0, sm0),
            ({
                let r = spec_resolve(
                    cfg.targets@,
                    cfg.actions@,
                    sm0.subrange(i as int, n as int),
                );
                goal == (r.0, r.1, out.deep_view() + r.2)
            }),
        decreases n - i,
    {
        let ghost rest = sm0.subrange(i as int, n as int);
        proof {
            assert(rest[0] == sm0[i as int]);
            assert(rest.drop_first() =~= sm0.subrange(i + 1, n as int));
        }
        let step = steps[i].clone();
        match split_alias(step.as_str()) {
            Option::None => {
                let ghost prev = out.deep_view();
                out.push(step);
                proof {
                    assert(out.deep_view() =~= prev.push(sm0[i as int]));
                    let r = spec_resolve(
                        cfg.targets@,
                        cfg.actions@,
                        sm0.subrange(i + 1, n as int),
                    );
                    assert(prev + (seq![sm0[i as int]] + r.2) =~= out.deep_view() + r.2);
                }
            },
            Option::Some(p) => {
                let (new_name, from_name) = p;
                proof {
                    lemma_sep_index(step@, new_name@.len() as int);
                    assert(alias_new(sm0[i as int]) == new_name@);
                    assert(alias_src(sm0[i as int]) == from_name@);
                }
                if cfg.targets.contains_key(from_name.as_str()) {
                    let ghost tmb = cfg.targets@;
                    let t = match cfg.targets.get(from_name.as_str()) {
                        Option::Some(t) => t.dup(),
                        Option::None => {
                            proof {
                                assert(false);
                            }
                            Target { name: String::new(), selector: String::new() }
                        },
                    };
                    let renamed = Target { name: new_name.clone(), selector: t.selector };
                    proof {
                        lemma_ainsert_uniq(tmb, new_name@, renamed.deep_view());
                    }
                    cfg.targets.insert(new_name.clone(), renamed);
                    let ghost prev = out.deep_view();
                    out.push(new_name);
                    proof {
                        assert(out.deep_view() =~= prev.push(alias_new(sm0[i as int])));
                        let r = spec_resolve(
                            cfg.targets@,
                            cfg.actions@,
                            sm0.subrange(i + 1, n as int),
                        );
                        assert(prev + (seq![alias_new(sm0[i as int])] + r.2)
                            =~= out.deep_view() + r.2);
                    }
                } else if cfg.actions.contains_key(from_name.as_str()) {
                    let ghost amb = cfg.actions@;
                    let a = match cfg.actions.get(from_name.as_str()) {
                        Option::Some(a) => a.dup(),
                        Option::None => {
                            proof {
                                assert(false);
                            }
                            Action {
                                name: String::new(),
                                data: crate::model::ActionData::ActionWait(
                                    crate::model::ActionWait { duration: 0 },
                                ),
                            }
                        },
                    };
                    let renamed = Action { name: new_name.clone(), data: a.data };
                    proof {
                        lemma_ainsert_uniq(amb, new_name@, renamed.deep_view());
                    }
                    cfg.actions.insert(new_name.clone(), renamed);
                    let ghost prev = out.deep_view();
                    out.push(new_name);
                    proof {
                        assert(out.deep_view() =~= prev.push(alias_new(sm0[i as int])));
                        let r = spec_resolve(
                            cfg.targets@,
                            cfg.actions@,
                            sm0.subrange(i + 1, n as int),
                        );
                        assert(prev + (seq![alias_new(sm0[i as int])] + r.2)
                            =~= out.deep_view() + r.2);
                    }
                } else {
                    // The alias resolves nowhere: the step is dropped.
                }
            },
        }
        i = i + 1;
    }
    proof {
        assert(sm0.subrange(n as int, n as int).len() == 0);
        let r = spec_resolve(cfg.targets@, cfg.actions@, sm0.subrange(n as int, n as int));
        assert(r.2 =~= Seq::<Seq<char>>::empty());
        assert(out.deep_view() + r.2 =~= out.deep_view());
    }
    cfg.steps = out;
}

} // verus!
