//! The pipeline executor and the multi-URL runner. The executor resolves
//! the step list, navigates, dispatches each step in order to the browser
//! session — targets are looked up first, then actions — and collects the
//! result. The runner executes one document over many URLs, each with an
//! independent session, and returns the results in input order.

use vstd::prelude::*;
use crate::load::{load_config, spec_config, yaml_doc_of};
use crate::model::{
    ActionData, ActionDataModel, ConfigModel, PipelineConfig, ResultModel, ScrapingResult,
    ScreenshotFormat, config_wf, dup_strings,
};
use crate::resolve::{resolve_steps, spec_resolve};
use crate::selector::{is_xpath, spec_is_xpath};
use crate::session::{
    Command, CommandModel, MemorySession, SessState, SessionEnv, env_wf, spec_apply,
};
use crate::strmap::{aget, ahas};
use crate::strutil::str_eq;

verus! {

/// The screenshot format an action's format string names: `"JPEG"` is
/// JPEG, anything else is PNG.
pub open spec fn spec_format_of(f: Seq<char>) -> ScreenshotFormat {
    if f == "JPEG"@ {
        ScreenshotFormat::JPEG
    } else {
        ScreenshotFormat::PNG
    }
}

/// Reads a screenshot format string.
pub fn format_of(f: &str) -> (r: ScreenshotFormat)
    ensures
        r == spec_format_of(f@),
{
    if str_eq(f, "JPEG") {
        ScreenshotFormat::JPEG
    } else {
        ScreenshotFormat::PNG
    }
}

/// The browser call one step dispatches to: a target becomes a find of its
/// selector's kind; an action becomes its corresponding call; an unknown
/// step dispatches nothing.
pub open spec fn spec_plan_step(c: ConfigModel, s: Seq<char>) -> Option<CommandModel> {
    if ahas(c.targets, s) {
        let t = aget(c.targets, s);
        if spec_is_xpath(t.selector) {
            Option::Some(CommandModel::FindXpath { name: t.name, selector: t.selector })
        } else {
            Option::Some(CommandModel::FindCss { name: t.name, selector: t.selector })
        }
    } else if ahas(c.actions, s) {
        let a = aget(c.actions, s);
        match a.data {
            ActionDataModel::Click { selector } => Option::Some(
                CommandModel::Click { name: a.name, selector },
            ),
            ActionDataModel::Screenshot { target, format } => Option::Some(
                CommandModel::Screenshot {
                    name: a.name,
                    target,
                    format: spec_format_of(format),
                },
            ),
            ActionDataModel::Wait { duration } => Option::Some(
                CommandModel::Sleep { secs: duration as u64 },
            ),
            ActionDataModel::TypeInto { target, text } => Option::Some(
                CommandModel::TypeInto { name: a.name, target, text },
            ),
            ActionDataModel::Save { targets, flatten } => Option::Some(
                CommandModel::Save { targets, flatten },
            ),
        }
    } else {
        Option::None
    }
}

/// The browser calls an ordered step list dispatches to, in order.
pub open spec fn spec_plan_steps(c: ConfigModel, steps: Seq<Seq<char>>) -> Seq<
    CommandModel,
>
    decreases steps.len(),
{
    if steps.len() == 0 {
        Seq::empty()
    } else {
        match spec_plan_step(c, steps[0]) {
            Option::Some(cmd) => seq![cmd] + spec_plan_steps(c, steps.drop_first()),
            Option::None => spec_plan_steps(c, steps.drop_first()),
        }
    }
}

/// The URL a run navigates to: the sentinel `"DEFAULT"` means the
/// document's own `url` setting; anything else is used verbatim.
pub open spec fn spec_resolved_url(c: ConfigModel, url: Seq<char>) -> Seq<char> {
    if url == "DEFAULT"@ {
        c.pipeline.url
    } else {
        url
    }
}

/// The configuration after the resolver pass.
pub open spec fn spec_resolved_config(c: ConfigModel) -> ConfigModel {
    let r = spec_resolve(c.targets, c.actions, c.steps);
    ConfigModel { pipeline: c.pipeline, targets: r.0, actions: r.1, steps: r.2 }
}

/// The full call sequence of one run: the navigation, then the dispatch of
/// every resolved step in order.
pub open spec fn spec_plan(c: ConfigModel, url: Seq<char>) -> Seq<CommandModel> {
    seq![
        CommandModel::Navigate { url: spec_resolved_url(c, url) },
    ] + spec_plan_steps(spec_resolved_config(c), spec_resolved_config(c).steps)
}

/// Folds a command sequence over a session state.
pub open spec fn spec_run_cmds(
    env: Seq<(Seq<char>, crate::session::PageModel)>,
    st: SessState,
    cmds: Seq<CommandModel>,
) -> SessState
    decreases cmds.len(),
{
    if cmds.len() == 0 {
        st
    } else {
        spec_run_cmds(env, spec_apply(env, st, cmds[0]), cmds.drop_first())
    }
}

/// The session state a run leaves behind, before the final collect.
pub open spec fn spec_run_state(
    env: Seq<(Seq<char>, crate::session::PageModel)>,
    st: SessState,
    c: ConfigModel,
    url: Seq<char>,
) -> SessState {
    spec_run_cmds(env, st, spec_plan(c, url))
}

/// Running a command sequence extends the recorded calls by exactly that
/// sequence, in order.
pub proof fn lemma_run_calls(
    env: Seq<(Seq<char>, crate::session::PageModel)>,
    st: SessState,
    cmds: Seq<CommandModel>,
)
    ensures
        spec_run_cmds(env, st, cmds).calls == st.calls + cmds,
    decreases cmds.len(),
{
    if cmds.len() == 0 {
        assert(st.calls + cmds =~= st.calls);
    } else {
        let st1 = spec_apply(env, st, cmds[0]);
        lemma_run_calls(env, st1, cmds.drop_first());
        assert(st1.calls == st.calls.push(cmds[0]));
        assert(st.calls.push(cmds[0]) + cmds.drop_first() =~= st.calls + cmds);
    }
}

/// Dispatches one step against a configuration.
pub fn plan_step(cfg: &PipelineConfig, step: &String) -> (r: Option<Command>)
    requires
        config_wf(cfg.deep_view()),
    ensures
        match r {
            Option::Some(c) => spec_plan_step(cfg.deep_view(), step@) == Option::Some(
                c.deep_view(),
            ),
            Option::None => spec_plan_step(cfg.deep_view(), step@) == Option::<
                CommandModel,
            >::None,
        },
{
    if let Option::Some(t) = cfg.targets.get(step.as_str()) {
        if is_xpath(t.selector.as_str()) {
            Some(
                Command::FindXpath {
                    name: t.name.clone(),
                    selector: t.selector.clone(),
                },
            )
        } else {
            Some(Command::FindCss { name: t.name.clone(), selector: t.selector.clone() })
        }
    } else if let Option::Some(a) = cfg.actions.get(step.as_str()) {
        match &a.data {
            ActionData::ActionClick(c) => Some(
                Command::Click { name: a.name.clone(), selector: c.selector.clone() },
            ),
            ActionData::ActionScreenshot(sd) => Some(
                Command::Screenshot {
                    name: a.name.clone(),
                    target: sd.target.clone(),
                    format: format_of(sd.format.as_str()),
                },
            ),
            ActionData::ActionWait(w) => Some(Command::Sleep { secs: w.duration as u64 }),
            ActionData::ActionTypeInto(t2) => Some(
                Command::TypeInto {
                    name: a.name.clone(),
                    target: t2.target.clone(),
                    text: t2.text.clone(),
                },
            ),
            ActionData::ActionSave(sv) => Some(
                Command::Save { targets: dup_strings(&sv.targets), flatten: sv.flatten },
            ),
        }
    } else {
        None
    }
}

/// A pipeline: its configuration and the browser session it drives.
pub struct ScrapingPipeline {
    pub pipeline_config: PipelineConfig,
    pub session: MemorySession,
}

impl ScrapingPipeline {
    /// A pipeline over an already-loaded configuration and session.
    pub fn new(pipeline_config: PipelineConfig, session: MemorySession) -> (r:
        ScrapingPipeline)
        ensures
            r.pipeline_config == pipeline_config,
            r.session == session,
    {
        ScrapingPipeline { pipeline_config, session }
    }

    /// Parses a pipeline document and pairs it with a fresh session over
    /// the given pages.
    pub fn from_text(text: &str, env: SessionEnv) -> (r: Result<
        ScrapingPipeline,
        crate::model::ConfigError,
    >)
        requires
            env_wf(env.deep_view()),
        ensures
            match r {
                Result::Ok(p) => {
                    &&& yaml_doc_of(text@) matches Option::Some(m) && spec_config(m)
                        == Option::Some(p.pipeline_config.deep_view())
                    &&& config_wf(p.pipeline_config.deep_view())
                    &&& p.session.wf()
                    &&& p.session.envm() == env.deep_view()
                    &&& p.session.st().current == Option::<Seq<char>>::None
                    &&& p.session.st().elements.len() == 0
                    &&& p.session.st().screenshots.len() == 0
                    &&& p.session.st().saved.len() == 0
                    &&& p.session.st().calls.len() == 0
                },
                Result::Err(_) => match yaml_doc_of(text@) {
                    Option::Some(m) => spec_config(m) == Option::<ConfigModel>::None,
                    Option::None => true,
                },
            },
    {
        match load_config(text) {
            Result::Ok(cfg) => {
                proof {
                    let m = yaml_doc_of(text@)->Some_0;
                    crate::load::lemma_config_names_bound(m);
                }
                Ok(ScrapingPipeline { pipeline_config: cfg, session: MemorySession::new(env) })
            },
            Result::Err(e) => Err(e),
        }
    }

    /// The step list as loaded.
    pub fn get_steps(&self) -> (r: Vec<String>)
        ensures
            r.deep_view() == self.pipeline_config.steps.deep_view(),
    {
        dup_strings(&self.pipeline_config.steps)
    }

    /// Runs the pipeline: resolves the alias steps, navigates to `url` (or
    /// to the document's own URL when `url` is the sentinel `"DEFAULT"`),
    /// dispatches every resolved step in order, and returns the collected
    /// result. Afterwards the session's accumulators are empty.
    pub fn run(&mut self, url: &String) -> (r: ScrapingResult)
        requires
            old(self).session.wf(),
            config_wf(old(self).pipeline_config.deep_view()),
        ensures
            final(self).session.wf(),
            final(self).session.envm() == old(self).session.envm(),
            config_wf(final(self).pipeline_config.deep_view()),
            final(self).pipeline_config.deep_view() == spec_resolved_config(
                old(self).pipeline_config.deep_view(),
            ),
            ({
                let stf = spec_run_state(
                    old(self).session.envm(),
                    old(self).session.st(),
                    old(self).pipeline_config.deep_view(),
                    url@,
                );
                &&& r.deep_view().elements == stf.elements
                &&& r.deep_view().screenshots == stf.screenshots
                &&& final(self).session.st().calls == stf.calls
                &&& final(self).session.st().saved == stf.saved
                &&& final(self).session.st().current == stf.current
                &&& final(self).session.st().elements.len() == 0
                &&& final(self).session.st().screenshots.len() == 0
            }),
    {
        let ghost c0 = self.pipeline_config.deep_view();
        let ghost env0 = self.session.envm();
        let ghost st0 = self.session.st();
        resolve_steps(&mut self.pipeline_config);
        let ghost c1 = self.pipeline_config.deep_view();
        proof {
            assert(c1 == spec_resolved_config(c0));
        }
        let rurl: String = if str_eq(url.as_str(), "DEFAULT") {
            self.pipeline_config.pipeline.url.clone()
        } else {
            url.clone()
        };
        proof {
            assert(rurl@ == spec_resolved_url(c0, url@));
        }
        self.session.navigate_to(rurl.as_str());
        let ghost st1 = self.session.st();
        let ghost cmds = spec_plan_steps(c1, c1.steps);
        proof {
            let plan = spec_plan(c0, url@);
            assert(plan[0] == CommandModel::Navigate { url: rurl@ });
            assert(plan.drop_first() =~= cmds);
            assert(st1 == spec_apply(env0, st0, plan[0]));
            assert(spec_run_cmds(env0, st0, plan) == spec_run_cmds(env0, st1, cmds));
        }
        let n = self.pipeline_config.steps.len();
        let mut i: usize = 0;
        proof {
            assert(c1.steps.subrange(0, n as int) =~= c1.steps);
        }
        while i < n
            invariant
                self.session.wf(),
                self.session.envm() == env0,
                self.pipeline_config.deep_view() == c1,
                config_wf(c1),
                n == self.pipeline_config.steps@.len(),
                n == c1.steps.len(),
                0 <= i <= n,
                self.session.st().current == Option::Some(spec_resolved_url(c0, url@)),
                spec_run_cmds(env0, st1, cmds) == spec_run_cmds(
                    env0,
                    self.session.st(),
                    spec_plan_steps(c1, c1.steps.subrange(i as int, n as int)),
                ),
            decreases n - i,
        {
            let ghost restm = c1.steps.subrange(i as int, n as int);
            proof {
                assert(restm[0] == c1.steps[i as int]);
                assert(restm.drop_first() =~= c1.steps.subrange(i + 1, n as int));
            }
            let step = self.pipeline_config.steps[i].clone();
            proof {
                assert(step@ == c1.steps[i as int]);
            }
            match plan_step(&self.pipeline_config, &step) {
                Option::Some(cmd) => {
                    let ghost cm = cmd.deep_view();
                    let ghost strest = spec_plan_steps(c1, restm.drop_first());
                    proof {
                        assert(spec_plan_steps(c1, restm) == seq![cm] + strest);
                        assert((seq![cm] + strest)[0] == cm);
                        assert((seq![cm] + strest).drop_first() =~= strest);
                        assert(spec_run_cmds(
                            env0,
                            self.session.st(),
                            seq![cm] + strest,
                        ) == spec_run_cmds(
                            env0,
                            spec_apply(env0, self.session.st(), cm),
                            strest,
                        ));
                        assert(!(cm matches CommandModel::Navigate { .. }));
                    }
                    match cmd {
                        Command::Navigate { url: u } => {
                            self.session.navigate_to(u.as_str());
                        },
                        Command::FindCss { name, selector } => {
                            self.session.find_elements_by_css(
                                name.as_str(),
                                selector.as_str(),
                            );
                        },
                        Command::FindXpath { name, selector } => {
                            self.session.find_elements_by_xpath(
                                name.as_str(),
                                selector.as_str(),
                            );
                        },
                        Command::Click { name, selector } => {
                            self.session.click(name.as_str(), selector.as_str());
                        },
                        Command::Sleep { secs } => {
                            self.session.sleep(secs);
                        },
                        Command::TypeInto { name, target, text } => {
                            self.session.type_into(
                                name.as_str(),
                                target.as_str(),
                                text.as_str(),
                            );
                        },
                        Command::Screenshot { name, target, format } => {
                            self.session.screenshot(name.as_str(), target.as_str(), format);
                        },
                        Command::Save { targets, flatten } => {
                            self.session.save(&targets, flatten);
                        },
                    }
                },
                Option::None => {
                    proof {
                        assert(spec_plan_steps(c1, restm) == spec_plan_steps(
                            c1,
                            restm.drop_first(),
                        ));
                    }
                },
            }
            i = i + 1;
        }
        proof {
            assert(c1.steps.subrange(n as int, n as int).len() == 0);
            assert(spec_plan_steps(c1, c1.steps.subrange(n as int, n as int))
                =~= Seq::<CommandModel>::empty());
            assert(spec_run_cmds(env0, st1, cmds) == self.session.st());
        }
        self.session.collect()
    }
}

/// The empty run result: what a URL that fails to load, or a document that
/// fails to parse, contributes.
pub open spec fn spec_empty_result() -> ResultModel {
    ResultModel { elements: Seq::empty(), screenshots: Seq::empty() }
}

/// The state of a session nothing has driven yet.
pub open spec fn spec_init_state() -> SessState {
    SessState {
        current: Option::None,
        elements: Seq::empty(),
        screenshots: Seq::empty(),
        saved: Seq::empty(),
        calls: Seq::empty(),
    }
}

/// What one URL contributes to a runner's output: the run's result when
/// the document parses and the URL loads; the empty result otherwise.
pub open spec fn spec_url_result(
    doc: Option<crate::doc::DocModel>,
    env: Seq<(Seq<char>, crate::session::PageModel)>,
    url: Seq<char>,
) -> ResultModel {
    match doc {
        Option::Some(m) => match spec_config(m) {
            Option::Some(c) => if ahas(env, spec_resolved_url(c, url)) {
                let stf = spec_run_state(env, spec_init_state(), c, url);
                ResultModel { elements: stf.elements, screenshots: stf.screenshots }
            } else {
                spec_empty_result()
            },
            Option::None => spec_empty_result(),
        },
        Option::None => spec_empty_result(),
    }
}

/// Runs one pipeline document over many URLs, one independent session per
/// URL, and returns the results in input order.
pub struct PipelineRunner {}

impl PipelineRunner {
    /// Executes the document against every URL in order. A URL that fails
    /// to load, like a document that fails to parse, contributes an empty
    /// result and does not disturb its peers.
    pub fn go(pipeline_doc: &str, urls: &Vec<String>, env: &SessionEnv) -> (r: Vec<
        ScrapingResult,
    >)
        requires
            env_wf(env.deep_view()),
        ensures
            r@.len() == urls@.len(),
            forall|i: int|
                0 <= i < urls@.len() ==> (#[trigger] r@[i]).deep_view()
                    == spec_url_result(
                    yaml_doc_of(pipeline_doc@),
                    env.deep_view(),
                    urls@[i]@,
                ),
    {
        let mut out: Vec<ScrapingResult> = Vec::new();
        let n = urls.len();
        let mut i: usize = 0;
        while i < n
            invariant
                env_wf(env.deep_view()),
                n == urls@.len(),
                0 <= i <= n,
                out@.len() == i,
                forall|j: int|
                    0 <= j < i ==> (#[trigger] out@[j]).deep_view() == spec_url_result(
                        yaml_doc_of(pipeline_doc@),
                        env.deep_view(),
                        urls@[j]@,
                    ),
            decreases n - i,
        {
            match load_config(pipeline_doc) {
                Result::Ok(cfg) => {
                    proof {
                        let m = yaml_doc_of(pipeline_doc@)->Some_0;
                        crate::load::lemma_config_names_bound(m);
                    }
                    let rurl: String = if str_eq(urls[i].as_str(), "DEFAULT") {
                        cfg.pipeline.url.clone()
                    } else {
                        urls[i].clone()
                    };
                    if env.has_page(rurl.as_str()) {
                        let session = MemorySession::new(env.dup());
                        let mut pipe = ScrapingPipeline { pipeline_config: cfg, session };
                        proof {
                            assert(pipe.session.st().elements =~= Seq::<
                                (Seq<char>, Seq<crate::model::DOMElementModel>),
                            >::empty());
                            assert(pipe.session.st().screenshots =~= Seq::<
                                (Seq<char>, Seq<u8>),
                            >::empty());
                            assert(pipe.session.st().saved =~= Seq::<
                                crate::session::SaveDocModel,
                            >::empty());
                            assert(pipe.session.st().calls =~= Seq::<
                                CommandModel,
                            >::empty());
                            assert(pipe.session.st() == spec_init_state());
                        }
                        let res = pipe.run(&urls[i]);
                        out.push(res);
                    } else {
                        let res = empty_result();
                        out.push(res);
                    }
                },
                Result::Err(_) => {
                    let res = empty_result();
                    out.push(res);
                },
            }
            i = i + 1;
        }
        out
    }
}

/// An empty scraping result.
fn empty_result() -> (r: ScrapingResult)
    ensures
        r.deep_view() == spec_empty_result(),
{
    let r = ScrapingResult::empty();
    proof {
        assert(r.deep_view().elements =~= Seq::<
            (Seq<char>, Seq<crate::model::DOMElementModel>),
        >::empty());
        assert(r.deep_view().screenshots =~= Seq::<(Seq<char>, Seq<u8>)>::empty());
    }
    r
}

} // verus!
