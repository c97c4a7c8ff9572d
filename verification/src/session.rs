//! The in-memory browser session the engine drives: it serves canned pages,
//! records every call it receives in order, accumulates element records and
//! screenshots under their registered names, persists save documents, and
//! drains both accumulators on `collect`.

use vstd::prelude::*;
use crate::model::{
    DOMElement, DOMElementModel, ScrapingResult, ScreenshotFormat, dup_elements,
    dup_strings, elems_wf, emap_wf,
};
use crate::selector::{is_xpath, spec_is_xpath};
use crate::strmap::{StrMap, aget, ahas, aidx, ainsert, auniq, lemma_ainsert_uniq};
use crate::strutil::{stem_of_url, stem_spec};

verus! {

/// One call the engine makes on a browser session.
pub enum Command {
    Navigate { url: String },
    FindCss { name: String, selector: String },
    FindXpath { name: String, selector: String },
    Click { name: String, selector: String },
    Sleep { secs: u64 },
    TypeInto { name: String, target: String, text: String },
    Screenshot { name: String, target: String, format: ScreenshotFormat },
    Save { targets: Vec<String>, flatten: bool },
}

/// Mathematical view of a `Command`.
pub enum CommandModel {
    Navigate { url: Seq<char> },
    FindCss { name: Seq<char>, selector: Seq<char> },
    FindXpath { name: Seq<char>, selector: Seq<char> },
    Click { name: Seq<char>, selector: Seq<char> },
    Sleep { secs: u64 },
    TypeInto { name: Seq<char>, target: Seq<char>, text: Seq<char> },
    Screenshot { name: Seq<char>, target: Seq<char>, format: ScreenshotFormat },
    Save { targets: Seq<Seq<char>>, flatten: bool },
}

impl DeepView for Command {
    type V = CommandModel;

    open spec fn deep_view(&self) -> CommandModel {
        match self {
            Command::Navigate { url } => CommandModel::Navigate { url: url@ },
            Command::FindCss { name, selector } => CommandModel::FindCss {
                name: name@,
                selector: selector@,
            },
            Command::FindXpath { name, selector } => CommandModel::FindXpath {
                name: name@,
                selector: selector@,
            },
            Command::Click { name, selector } => CommandModel::Click {
                name: name@,
                selector: selector@,
            },
            Command::Sleep { secs } => CommandModel::Sleep { secs: *secs },
            Command::TypeInto { name, target, text } => CommandModel::TypeInto {
                name: name@,
                target: target@,
                text: text@,
            },
            Command::Screenshot { name, target, format } => CommandModel::Screenshot {
                name: name@,
                target: target@,
                format: *format,
            },
            Command::Save { targets, flatten } => CommandModel::Save {
                targets: targets.deep_view(),
                flatten: *flatten,
            },
        }
    }
}

/// A canned page: what each selector locates on it, and the captured image
/// bytes a screenshot of each selector yields.
pub struct Page {
    pub css: StrMap<Vec<DOMElement>>,
    pub xpath: StrMap<Vec<DOMElement>>,
    pub shots: StrMap<Vec<u8>>,
}

/// Mathematical view of a `Page`.
pub struct PageModel {
    pub css: Seq<(Seq<char>, Seq<DOMElementModel>)>,
    pub xpath: Seq<(Seq<char>, Seq<DOMElementModel>)>,
    pub shots: Seq<(Seq<char>, Seq<u8>)>,
}

impl DeepView for Page {
    type V = PageModel;

    open spec fn deep_view(&self) -> PageModel {
        PageModel { css: self.css@, xpath: self.xpath@, shots: self.shots@ }
    }
}

impl Page {
    /// A page on which no selector locates anything.
    pub fn new() -> (r: Page)
        ensures
            r.deep_view().css.len() == 0,
            r.deep_view().xpath.len() == 0,
            r.deep_view().shots.len() == 0,
    {
        Page { css: StrMap::new(), xpath: StrMap::new(), shots: StrMap::new() }
    }
}

/// A page keeps its selector keys distinct and its element lists well
/// formed.
pub open spec fn page_wf(p: PageModel) -> bool {
    emap_wf(p.css) && emap_wf(p.xpath) && auniq(p.shots)
}

/// The set of pages a session can serve, keyed by URL. A URL outside the
/// map fails to load.
pub struct SessionEnv {
    pub pages: StrMap<Page>,
}

impl DeepView for SessionEnv {
    type V = Seq<(Seq<char>, PageModel)>;

    open spec fn deep_view(&self) -> Seq<(Seq<char>, PageModel)> {
        self.pages@
    }
}

/// An environment keeps its URLs distinct and its pages well formed.
pub open spec fn env_wf(e: Seq<(Seq<char>, PageModel)>) -> bool {
    auniq(e) && forall|i: int| 0 <= i < e.len() ==> page_wf((#[trigger] e[i]).1)
}

impl SessionEnv {
    /// An environment in which no URL loads.
    pub fn new() -> (r: SessionEnv)
        ensures
            r.deep_view().len() == 0,
    {
        SessionEnv { pages: StrMap::new() }
    }

    /// Whether `url` loads in this environment.
    pub fn has_page(&self, url: &str) -> (r: bool)
        ensures
            r == ahas(self.deep_view(), url@),
    {
        self.pages.contains_key(url)
    }
}

/// The elements a CSS selector locates on the current page: empty when the
/// page did not load or the selector finds nothing.
pub open spec fn canned_css(
    env: Seq<(Seq<char>, PageModel)>,
    cur: Seq<char>,
    sel: Seq<char>,
) -> Seq<DOMElementModel> {
    if ahas(env, cur) && ahas(aget(env, cur).css, sel) {
        aget(aget(env, cur).css, sel)
    } else {
        Seq::empty()
    }
}

/// The elements an XPath selector locates on the current page.
pub open spec fn canned_xpath(
    env: Seq<(Seq<char>, PageModel)>,
    cur: Seq<char>,
    sel: Seq<char>,
) -> Seq<DOMElementModel> {
    if ahas(env, cur) && ahas(aget(env, cur).xpath, sel) {
        aget(aget(env, cur).xpath, sel)
    } else {
        Seq::empty()
    }
}

/// The image bytes a screenshot of `sel` yields on the current page, if the
/// element is found.
pub open spec fn canned_shot(
    env: Seq<(Seq<char>, PageModel)>,
    cur: Seq<char>,
    sel: Seq<char>,
) -> Option<Seq<u8>> {
    if ahas(env, cur) && ahas(aget(env, cur).shots, sel) {
        Option::Some(aget(aget(env, cur).shots, sel))
    } else {
        Option::None
    }
}

/// The content of a persisted save document.
pub enum SaveContent {
    Flat(Vec<DOMElement>),
    Keyed(StrMap<Vec<DOMElement>>),
}

/// Mathematical view of a `SaveContent`.
pub enum SaveContentModel {
    Flat(Seq<DOMElementModel>),
    Keyed(Seq<(Seq<char>, Seq<DOMElementModel>)>),
}

impl DeepView for SaveContent {
    type V = SaveContentModel;

    open spec fn deep_view(&self) -> SaveContentModel {
        match self {
            SaveContent::Flat(v) => SaveContentModel::Flat(v.deep_view()),
            SaveContent::Keyed(m) => SaveContentModel::Keyed(m@),
        }
    }
}

/// A persisted save document: the filename stem derived from the current
/// URL, and the selected content.
pub struct SaveDoc {
    pub stem: String,
    pub content: SaveContent,
}

/// Mathematical view of a `SaveDoc`.
pub struct SaveDocModel {
    pub stem: Seq<char>,
    pub content: SaveContentModel,
}

impl DeepView for SaveDoc {
    type V = SaveDocModel;

    open spec fn deep_view(&self) -> SaveDocModel {
        SaveDocModel { stem: self.stem@, content: self.content.deep_view() }
    }
}

/// The entries of the element accumulator retained by a save: the named
/// targets, first occurrence each, in the order the `targets` list names
/// them.
pub open spec fn spec_keep(
    elems: Seq<(Seq<char>, Seq<DOMElementModel>)>,
    names: Seq<Seq<char>>,
) -> Seq<(Seq<char>, Seq<DOMElementModel>)>
    decreases names.len(),
{
    if names.len() == 0 {
        Seq::empty()
    } else {
        let pre = spec_keep(elems, names.drop_last());
        let t = names.last();
        if ahas(elems, t) {
            ainsert(pre, t, aget(elems, t))
        } else {
            pre
        }
    }
}

/// The concatenation of the retained element lists, in entry order.
pub open spec fn spec_flat(keyed: Seq<(Seq<char>, Seq<DOMElementModel>)>) -> Seq<
    DOMElementModel,
>
    decreases keyed.len(),
{
    if keyed.len() == 0 {
        Seq::empty()
    } else {
        spec_flat(keyed.drop_last()) + keyed.last().1
    }
}

/// The sum of the lengths of the retained element lists.
pub open spec fn spec_len_sum(keyed: Seq<(Seq<char>, Seq<DOMElementModel>)>) -> int
    decreases keyed.len(),
{
    if keyed.len() == 0 {
        0
    } else {
        spec_len_sum(keyed.drop_last()) + keyed.last().1.len()
    }
}

/// A flattened save document holds exactly as many element records as the
/// selected target lists hold together.
pub proof fn lemma_flat_len(keyed: Seq<(Seq<char>, Seq<DOMElementModel>)>)
    ensures
        spec_flat(keyed).len() == spec_len_sum(keyed),
    decreases keyed.len(),
{
    if keyed.len() > 0 {
        lemma_flat_len(keyed.drop_last());
    }
}

/// A flattened save holds exactly as many element records as the selected
/// target lists hold together.
pub proof fn lemma_save_flatten_len(
    elems: Seq<(Seq<char>, Seq<DOMElementModel>)>,
    names: Seq<Seq<char>>,
)
    ensures
        match spec_save_content(elems, names, true) {
            SaveContentModel::Flat(v) => v.len() == spec_len_sum(spec_keep(elems, names)),
            SaveContentModel::Keyed(_) => false,
        },
{
    lemma_flat_len(spec_keep(elems, names));
}

/// What a save persists: the concatenation of the retained lists when
/// `flatten` is set, the retained map otherwise.
pub open spec fn spec_save_content(
    elems: Seq<(Seq<char>, Seq<DOMElementModel>)>,
    names: Seq<Seq<char>>,
    flatten: bool,
) -> SaveContentModel {
    if flatten {
        SaveContentModel::Flat(spec_flat(spec_keep(elems, names)))
    } else {
        SaveContentModel::Keyed(spec_keep(elems, names))
    }
}

/// The observable state of a session.
pub struct SessState {
    pub current: Option<Seq<char>>,
    pub elements: Seq<(Seq<char>, Seq<DOMElementModel>)>,
    pub screenshots: Seq<(Seq<char>, Seq<u8>)>,
    pub saved: Seq<SaveDocModel>,
    pub calls: Seq<CommandModel>,
}

/// How one command changes a session's state against an environment of
/// canned pages.
pub open spec fn spec_apply(
    env: Seq<(Seq<char>, PageModel)>,
    st: SessState,
    cmd: CommandModel,
) -> SessState {
    let rec = SessState {
        current: st.current,
        elements: st.elements,
        screenshots: st.screenshots,
        saved: st.saved,
        calls: st.calls.push(cmd),
    };
    match cmd {
        CommandModel::Navigate { url } => SessState {
            current: Option::Some(url),
            ..rec
        },
        CommandModel::FindCss { name, selector } => match st.current {
            Option::Some(cur) => if spec_is_xpath(selector) {
                rec
            } else {
                SessState {
                    elements: ainsert(st.elements, name, canned_css(env, cur, selector)),
                    ..rec
                }
            },
            Option::None => rec,
        },
        CommandModel::FindXpath { name, selector } => match st.current {
            Option::Some(cur) => if !spec_is_xpath(selector) {
                rec
            } else {
                SessState {
                    elements: ainsert(
                        st.elements,
                        name,
                        canned_xpath(env, cur, selector),
                    ),
                    ..rec
                }
            },
            Option::None => rec,
        },
        CommandModel::Click { name, selector } => rec,
        CommandModel::Sleep { secs } => rec,
        CommandModel::TypeInto { name, target, text } => rec,
        CommandModel::Screenshot { name, target, format } => match st.current {
            Option::Some(cur) => match canned_shot(env, cur, target) {
                Option::Some(bytes) => SessState {
                    screenshots: ainsert(st.screenshots, name, bytes),
                    ..rec
                },
                Option::None => rec,
            },
            Option::None => rec,
        },
        CommandModel::Save { targets, flatten } => match st.current {
            Option::Some(cur) => SessState {
                saved: st.saved.push(
                    SaveDocModel {
                        stem: stem_spec(cur),
                        content: spec_save_content(st.elements, targets, flatten),
                    },
                ),
                ..rec
            },
            Option::None => rec,
        },
    }
}

/// The in-memory browser session: canned pages, the recorded call sequence,
/// and the element and screenshot accumulators.
pub struct MemorySession {
    pub env: SessionEnv,
    pub current: Option<String>,
    pub elements: StrMap<Vec<DOMElement>>,
    pub screenshots: StrMap<Vec<u8>>,
    pub saved: Vec<SaveDoc>,
    pub calls: Vec<Command>,
}

impl MemorySession {
    /// The observable state.
    pub open spec fn st(&self) -> SessState {
        SessState {
            current: self.current.deep_view(),
            elements: self.elements@,
            screenshots: self.screenshots@,
            saved: self.saved.deep_view(),
            calls: self.calls.deep_view(),
        }
    }

    /// The canned pages.
    pub open spec fn envm(&self) -> Seq<(Seq<char>, PageModel)> {
        self.env.deep_view()
    }

    /// Well-formedness: the environment and both accumulators keep their
    /// keys distinct, and element lists are well formed.
    pub open spec fn wf(&self) -> bool {
        env_wf(self.envm()) && emap_wf(self.st().elements) && auniq(self.st().screenshots)
    }

    /// A fresh session over an environment of canned pages: nothing
    /// navigated, nothing accumulated, no call yet received.
    pub fn new(env: SessionEnv) -> (r: MemorySession)
        requires
            env_wf(env.deep_view()),
        ensures
            r.wf(),
            r.envm() == env.deep_view(),
            r.st().current == Option::<Seq<char>>::None,
            r.st().elements.len() == 0,
            r.st().screenshots.len() == 0,
            r.st().saved.len() == 0,
            r.st().calls.len() == 0,
    {
        let r = MemorySession {
            env,
            current: None,
            elements: StrMap::new(),
            screenshots: StrMap::new(),
            saved: Vec::new(),
            calls: Vec::new(),
        };
        proof {
            assert(r.saved.deep_view() =~= Seq::<SaveDocModel>::empty());
            assert(r.calls.deep_view() =~= Seq::<CommandModel>::empty());
        }
        r
    }

    /// The last URL navigated to.
    pub fn current_url(&self) -> (r: Option<&String>)
        ensures
            match r {
                Option::Some(u) => self.st().current == Option::Some(u@),
                Option::None => self.st().current == Option::<Seq<char>>::None,
            },
    {
        self.current.as_ref()
    }

    /// Loads a page: the session's current URL becomes `url` whether or not
    /// the environment can serve it.
    pub fn navigate_to(&mut self, url: &str)
        requires
            old(self).wf(),
        ensures
            final(self).wf(),
            final(self).envm() == old(self).envm(),
            final(self).st() == spec_apply(
                old(self).envm(),
                old(self).st(),
                CommandModel::Navigate { url: url@ },
            ),
    {
        let ghost prev = self.calls.deep_view();
        let cmd = Command::Navigate { url: url.to_owned() };
        let ghost cm = cmd.deep_view();
        self.calls.push(cmd);
        self.current = Some(url.to_owned());
        proof {
            assert(self.calls.deep_view() =~= prev.push(cm));
        }
    }

    /// Locates elements by a CSS selector and records them under `name`,
    /// replacing any prior entry; an XPath selector makes the call a no-op,
    /// and a selector that finds nothing records an empty list.
    pub fn find_elements_by_css(&mut self, name: &str, target: &str)
        requires
            old(self).wf(),
        ensures
            final(self).wf(),
            final(self).envm() == old(self).envm(),
            final(self).st() == spec_apply(
                old(self).envm(),
                old(self).st(),
                CommandModel::FindCss { name: name@, selector: target@ },
            ),
    {
        let ghost prev = self.calls.deep_view();
        let cmd = Command::FindCss { name: name.to_owned(), selector: target.to_owned() };
        let ghost cm = cmd.deep_view();
        self.calls.push(cmd);
        proof {
            assert(self.calls.deep_view() =~= prev.push(cm));
        }
        if is_xpath(target) {
            return ;
        }
        if self.current.is_none() {
            return ;
        }
        let els = self.lookup_css(target);
        proof {
            lemma_ainsert_uniq(self.elements@, name@, els.deep_view());
            let m2 = ainsert(self.elements@, name@, els.deep_view());
            assert forall|i: int| 0 <= i < m2.len() implies elems_wf(
                (#[trigger] m2[i]).1,
            ) by {
                if ahas(self.elements@, name@) {
                    let w = aidx(self.elements@, name@);
                    if i != w {
                        assert(m2[i] == self.elements@[i]);
                    }
                } else {
                    if i < self.elements@.len() {
                        assert(m2[i] == self.elements@[i]);
                    }
                }
            }
        }
        self.elements.insert(name.to_owned(), els);
    }

    /// Locates elements by an XPath selector and records them under `name`;
    /// a CSS selector makes the call a no-op.
    pub fn find_elements_by_xpath(&mut self, name: &str, target: &str)
        requires
            old(self).wf(),
        ensures
            final(self).wf(),
            final(self).envm() == old(self).envm(),
            final(self).st() == spec_apply(
                old(self).envm(),
                old(self).st(),
                CommandModel::FindXpath { name: name@, selector: target@ },
            ),
    {
        let ghost prev = self.calls.deep_view();
        let cmd = Command::FindXpath {
            name: name.to_owned(),
            selector: target.to_owned(),
        };
        let ghost cm = cmd.deep_view();
        self.calls.push(cmd);
        proof {
            assert(self.calls.deep_view() =~= prev.push(cm));
        }
        if !is_xpath(target) {
            return ;
        }
        if self.current.is_none() {
            return ;
        }
        let els = self.lookup_xpath(target);
        proof {
            lemma_ainsert_uniq(self.elements@, name@, els.deep_view());
            let m2 = ainsert(self.elements@, name@, els.deep_view());
            assert forall|i: int| 0 <= i < m2.len() implies elems_wf(
                (#[trigger] m2[i]).1,
            ) by {
                if ahas(self.elements@, name@) {
                    let w = aidx(self.elements@, name@);
                    if i != w {
                        assert(m2[i] == self.elements@[i]);
                    }
                } else {
                    if i < self.elements@.len() {
                        assert(m2[i] == self.elements@[i]);
                    }
                }
            }
        }
        self.elements.insert(name.to_owned(), els);
    }

    /// What a CSS selector finds on the current page.
    fn lookup_css(&self, target: &str) -> (r: Vec<DOMElement>)
        requires
            self.wf(),
            self.st().current matches Option::Some(_),
        ensures
            r.deep_view() == canned_css(self.envm(), self.st().current->0, target@),
            elems_wf(r.deep_view()),
    {
        let cur = match &self.current {
            Some(u) => u,
            None => {
                return Vec::new();
            },
        };
        match self.env.pages.get(cur.as_str()) {
            Some(page) => {
                proof {
                    let w = aidx(self.envm(), cur@);
                    assert(self.envm()[w].1 == page.deep_view());
                    assert(page_wf(page.deep_view()));
                }
                match page.css.get(target) {
                    Some(v) => {
                        proof {
                            let w2 = aidx(page.css@, target@);
                            assert(page.css@[w2].1 == v.deep_view());
                            assert(elems_wf(v.deep_view()));
                        }
                        dup_elements(v)
                    },
                    None => {
                        let empty: Vec<DOMElement> = Vec::new();
                        proof {
                            assert(empty.deep_view() =~= Seq::<
                                DOMElementModel,
                            >::empty());
                        }
                        empty
                    },
                }
            },
            None => {
                let empty: Vec<DOMElement> = Vec::new();
                proof {
                    assert(empty.deep_view() =~= Seq::<DOMElementModel>::empty());
                }
                empty
            },
        }
    }

    /// What an XPath selector finds on the current page.
    fn lookup_xpath(&self, target: &str) -> (r: Vec<DOMElement>)
        requires
            self.wf(),
            self.st().current matches Option::Some(_),
        ensures
            r.deep_view() == canned_xpath(self.envm(), self.st().current->0, target@),
            elems_wf(r.deep_view()),
    {
        let cur = match &self.current {
            Some(u) => u,
            None => {
                return Vec::new();
            },
        };
        match self.env.pages.get(cur.as_str()) {
            Some(page) => {
                proof {
                    let w = aidx(self.envm(), cur@);
                    assert(self.envm()[w].1 == page.deep_view());
                    assert(page_wf(page.deep_view()));
                }
                match page.xpath.get(target) {
                    Some(v) => {
                        proof {
                            let w2 = aidx(page.xpath@, target@);
                            assert(page.xpath@[w2].1 == v.deep_view());
                            assert(elems_wf(v.deep_view()));
                        }
                        dup_elements(v)
                    },
                    None => {
                        let empty: Vec<DOMElement> = Vec::new();
                        proof {
                            assert(empty.deep_view() =~= Seq::<
                                DOMElementModel,
                            >::empty());
                        }
                        empty
                    },
                }
            },
            None => {
                let empty: Vec<DOMElement> = Vec::new();
                proof {
                    assert(empty.deep_view() =~= Seq::<DOMElementModel>::empty());
                }
                empty
            },
        }
    }

    /// Clicks the element a selector locates; the accumulators are not
    /// touched.
    pub fn click(&mut self, name: &str, target: &str)
        requires
            old(self).wf(),
        ensures
            final(self).wf(),
            final(self).envm() == old(self).envm(),
            final(self).st() == spec_apply(
                old(self).envm(),
                old(self).st(),
                CommandModel::Click { name: name@, selector: target@ },
            ),
    {
        let ghost prev = self.calls.deep_view();
        let cmd = Command::Click { name: name.to_owned(), selector: target.to_owned() };
        let ghost cm = cmd.deep_view();
        self.calls.push(cmd);
        proof {
            assert(self.calls.deep_view() =~= prev.push(cm));
        }
    }

    /// Pauses for the given number of seconds; the accumulators are not
    /// touched.
    pub fn sleep(&mut self, secs: u64)
        requires
            old(self).wf(),
        ensures
            final(self).wf(),
            final(self).envm() == old(self).envm(),
            final(self).st() == spec_apply(
                old(self).envm(),
                old(self).st(),
                CommandModel::Sleep { secs },
            ),
    {
        let ghost prev = self.calls.deep_view();
        let cmd = Command::Sleep { secs };
        let ghost cm = cmd.deep_view();
        self.calls.push(cmd);
        proof {
            assert(self.calls.deep_view() =~= prev.push(cm));
        }
    }

    /// Types text into the element a selector locates; the accumulators are
    /// not touched.
    pub fn type_into(&mut self, name: &str, target: &str, text: &str)
        requires
            old(self).wf(),
        ensures
            final(self).wf(),
            final(self).envm() == old(self).envm(),
            final(self).st() == spec_apply(
                old(self).envm(),
                old(self).st(),
                CommandModel::TypeInto { name: name@, target: target@, text: text@ },
            ),
    {
        let ghost prev = self.calls.deep_view();
        let cmd = Command::TypeInto {
            name: name.to_owned(),
            target: target.to_owned(),
            text: text.to_owned(),
        };
        let ghost cm = cmd.deep_view();
        self.calls.push(cmd);
        proof {
            assert(self.calls.deep_view() =~= prev.push(cm));
        }
    }

    /// Captures a screenshot of the element a selector locates and records
    /// the bytes under `name`; a missing element records nothing.
    pub fn screenshot(&mut self, name: &str, target: &str, format: ScreenshotFormat)
        requires
            old(self).wf(),
        ensures
            final(self).wf(),
            final(self).envm() == old(self).envm(),
            final(self).st() == spec_apply(
                old(self).envm(),
                old(self).st(),
                CommandModel::Screenshot { name: name@, target: target@, format },
            ),
    {
        let ghost prev = self.calls.deep_view();
        let cmd = Command::Screenshot {
            name: name.to_owned(),
            target: target.to_owned(),
            format,
        };
        let ghost cm = cmd.deep_view();
        self.calls.push(cmd);
        proof {
            assert(self.calls.deep_view() =~= prev.push(cm));
        }
        let cur = match &self.current {
            Some(u) => u.clone(),
            None => {
                return ;
            },
        };
        let bytes = {
            match self.env.pages.get(cur.as_str()) {
                Some(page) => {
                    proof {
                        let w = aidx(self.envm(), cur@);
                        assert(self.envm()[w].1 == page.deep_view());
                        assert(page_wf(page.deep_view()));
                    }
                    match page.shots.get(target) {
                        Some(v) => {
                            proof {
                                let w2 = aidx(page.shots@, target@);
                                assert(page.shots@[w2].1 == v.deep_view());
                            }
                            Some(dup_bytes_local(v))
                        },
                        None => None,
                    }
                },
                None => None,
            }
        };
        match bytes {
            Some(b) => {
                proof {
                    lemma_ainsert_uniq(self.screenshots@, name@, b.deep_view());
                }
                self.screenshots.insert(name.to_owned(), b);
            },
            None => {},
        }
    }

    /// Persists the selected targets from the element accumulator, which is
    /// left untouched: a subsequent `collect` still returns the same data.
    pub fn save(&mut self, targets: &Vec<String>, flatten: bool)
        requires
            old(self).wf(),
            old(self).st().current matches Option::Some(_),
        ensures
            final(self).wf(),
            final(self).envm() == old(self).envm(),
            final(self).st() == spec_apply(
                old(self).envm(),
                old(self).st(),
                CommandModel::Save { targets: targets.deep_view(), flatten },
            ),
    {
        let ghost prev = self.calls.deep_view();
        let ghost prevsaved = self.saved.deep_view();
        let cmd = Command::Save { targets: dup_strings(targets), flatten };
        let ghost cm = cmd.deep_view();
        self.calls.push(cmd);
        proof {
            assert(self.calls.deep_view() =~= prev.push(cm));
        }
        let cur = match &self.current {
            Some(u) => u.clone(),
            None => {
                return ;
            },
        };
        let doc = build_save_doc(&self.elements, targets, flatten, cur.as_str());
        let ghost dm = doc.deep_view();
        self.saved.push(doc);
        proof {
            assert(self.saved.deep_view() =~= prevsaved.push(dm));
        }
    }

    /// Returns a snapshot of both accumulators and clears them: the drain.
    pub fn collect(&mut self) -> (r: ScrapingResult)
        requires
            old(self).wf(),
        ensures
            final(self).wf(),
            final(self).envm() == old(self).envm(),
            r.deep_view().elements == old(self).st().elements,
            r.deep_view().screenshots == old(self).st().screenshots,
            final(self).st().elements.len() == 0,
            final(self).st().screenshots.len() == 0,
            final(self).st().current == old(self).st().current,
            final(self).st().saved == old(self).st().saved,
            final(self).st().calls == old(self).st().calls,
    {
        let elements = self.elements.take();
        let screenshots = self.screenshots.take();
        ScrapingResult { elements, screenshots }
    }
}

/// Copies a byte string (a screenshot's bytes).
fn dup_bytes_local(v: &Vec<u8>) -> (r: Vec<u8>)
    ensures
        r.deep_view() == v.deep_view(),
{
    crate::model::dup_bytes(v)
}

/// Copies an element accumulator, preserving the view.
pub fn dup_emap(m: &StrMap<Vec<DOMElement>>) -> (r: StrMap<Vec<DOMElement>>)
    requires
        emap_wf(m@),
    ensures
        r@ == m@,
{
    let mut r: StrMap<Vec<DOMElement>> = StrMap::new();
    let n = m.len();
    let mut i: usize = 0;
    while i < n
        invariant
            emap_wf(m@),
            n == m@.len(),
            0 <= i <= n,
            r@ == m@.subrange(0, i as int),
        decreases n - i,
    {
        let e = m.entry_at(i);
        proof {
            assert(auniq(r@));
            assert(forall|j: int| 0 <= j < i ==> m@[j].0 != m@[i as int].0);
            assert(!ahas(r@, m@[i as int].0));
            assert(elems_wf(m@[i as int].1));
        }
        r.insert(e.0.clone(), dup_elements(e.1));
        proof {
            assert(r@ =~= m@.subrange(0, i + 1));
        }
        i = i + 1;
    }
    proof {
        assert(m@.subrange(0, n as int) =~= m@);
    }
    r
}

/// Copies a screenshot accumulator, preserving the view.
pub fn dup_bmap(m: &StrMap<Vec<u8>>) -> (r: StrMap<Vec<u8>>)
    requires
        auniq(m@),
    ensures
        r@ == m@,
{
    let mut r: StrMap<Vec<u8>> = StrMap::new();
    let n = m.len();
    let mut i: usize = 0;
    while i < n
        invariant
            auniq(m@),
            n == m@.len(),
            0 <= i <= n,
            r@ == m@.subrange(0, i as int),
        decreases n - i,
    {
        let e = m.entry_at(i);
        proof {
            assert(auniq(r@));
            assert(forall|j: int| 0 <= j < i ==> m@[j].0 != m@[i as int].0);
            assert(!ahas(r@, m@[i as int].0));
        }
        r.insert(e.0.clone(), crate::model::dup_bytes(e.1));
        proof {
            assert(r@ =~= m@.subrange(0, i + 1));
        }
        i = i + 1;
    }
    proof {
        assert(m@.subrange(0, n as int) =~= m@);
    }
    r
}

impl Page {
    /// An exact copy.
    pub fn dup(&self) -> (r: Page)
        requires
            page_wf(self.deep_view()),
        ensures
            r.deep_view() == self.deep_view(),
    {
        Page {
            css: dup_emap(&self.css),
            xpath: dup_emap(&self.xpath),
            shots: dup_bmap(&self.shots),
        }
    }
}

impl SessionEnv {
    /// An exact copy, so that each pipeline can own an independent session
    /// over the same canned pages.
    pub fn dup(&self) -> (r: SessionEnv)
        requires
            env_wf(self.deep_view()),
        ensures
            r.deep_view() == self.deep_view(),
    {
        let m = &self.pages;
        let mut pages: StrMap<Page> = StrMap::new();
        let n = m.len();
        let mut i: usize = 0;
        while i < n
            invariant
                env_wf(m@),
                n == m@.len(),
                0 <= i <= n,
                pages@ == m@.subrange(0, i as int),
            decreases n - i,
        {
            let e = m.entry_at(i);
            proof {
                assert(auniq(pages@));
                assert(forall|j: int| 0 <= j < i ==> m@[j].0 != m@[i as int].0);
                assert(!ahas(pages@, m@[i as int].0));
                assert(page_wf(m@[i as int].1));
            }
            pages.insert(e.0.clone(), e.1.dup());
            proof {
                assert(pages@ =~= m@.subrange(0, i + 1));
            }
            i = i + 1;
        }
        proof {
            assert(m@.subrange(0, n as int) =~= m@);
        }
        SessionEnv { pages }
    }
}

/// Builds the document a save persists: the filename stem derived from the
/// current URL, and the selected targets' element lists, flattened into one
/// list or kept keyed.
pub fn build_save_doc(
    elements: &StrMap<Vec<DOMElement>>,
    targets: &Vec<String>,
    flatten: bool,
    url: &str,
) -> (r: SaveDoc)
    requires
        emap_wf(elements@),
    ensures
        r.deep_view() == (SaveDocModel {
            stem: stem_spec(url@),
            content: spec_save_content(elements@, targets.deep_view(), flatten),
        }),
{
    let stem = stem_of_url(url);
    let keyed = keep_targets(elements, targets);
    let content = if flatten {
        SaveContent::Flat(flatten_keyed(&keyed))
    } else {
        SaveContent::Keyed(keyed)
    };
    SaveDoc { stem, content }
}

/// Builds the retained map of a save: the named targets, first occurrence
/// each, in the order the `targets` list names them.
fn keep_targets(elements: &StrMap<Vec<DOMElement>>, names: &Vec<String>) -> (r: StrMap<
    Vec<DOMElement>,
>)
    requires
        emap_wf(elements@),
    ensures
        r@ == spec_keep(elements@, names.deep_view()),
        emap_wf(r@),
{
    let ghost nm = names.deep_view();
    let mut r: StrMap<Vec<DOMElement>> = StrMap::new();
    let n = names.len();
    let mut i: usize = 0;
    proof {
        assert(nm.subrange(0, 0) =~= Seq::<Seq<char>>::empty());
        assert(r@ =~= spec_keep(elements@, nm.subrange(0, 0)));
    }
    while i < n
        invariant
            emap_wf(elements@),
            nm == names.deep_view(),
            n == names@.len(),
            n == nm.len(),
            0 <= i <= n,
            r@ == spec_keep(elements@, nm.subrange(0, i as int)),
            emap_wf(r@),
        decreases n - i,
    {
        let ghost pre = r@;
        proof {
            assert(nm.subrange(0, i + 1).drop_last() =~= nm.subrange(0, i as int));
            assert(nm.subrange(0, i + 1).last() == nm[i as int]);
            assert(nm[i as int] == names@[i as int]@);
        }
        match elements.get(names[i].as_str()) {
            Some(v) => {
                proof {
                    let w = aidx(elements@, names@[i as int]@);
                    assert(elements@[w].1 == v.deep_view());
                    assert(elems_wf(v.deep_view()));
                    lemma_ainsert_uniq(pre, names@[i as int]@, v.deep_view());
                    let m2 = ainsert(pre, names@[i as int]@, v.deep_view());
                    assert forall|j: int| 0 <= j < m2.len() implies elems_wf(
                        (#[trigger] m2[j]).1,
                    ) by {
                        if ahas(pre, names@[i as int]@) {
                            let u = aidx(pre, names@[i as int]@);
                            if j != u {
                                assert(m2[j] == pre[j]);
                            }
                        } else {
                            if j < pre.len() {
                                assert(m2[j] == pre[j]);
                            }
                        }
                    }
                }
                let els = dup_elements(v);
                r.insert(names[i].clone(), els);
            },
            None => {},
        }
        i = i + 1;
    }
    proof {
        assert(nm.subrange(0, n as int) =~= nm);
    }
    r
}

/// Concatenates the retained element lists in entry order.
fn flatten_keyed(keyed: &StrMap<Vec<DOMElement>>) -> (r: Vec<DOMElement>)
    requires
        emap_wf(keyed@),
    ensures
        r.deep_view() == spec_flat(keyed@),
{
    let mut r: Vec<DOMElement> = Vec::new();
    let n = keyed.len();
    let mut i: usize = 0;
    proof {
        assert(keyed@.subrange(0, 0) =~= Seq::<
            (Seq<char>, Seq<DOMElementModel>),
        >::empty());
        assert(r.deep_view() =~= spec_flat(keyed@.subrange(0, 0)));
    }
    while i < n
        invariant
            emap_wf(keyed@),
            n == keyed@.len(),
            0 <= i <= n,
            r.deep_view() == spec_flat(keyed@.subrange(0, i as int)),
        decreases n - i,
    {
        let ghost pre = r.deep_view();
        let e = keyed.entry_at(i);
        proof {
            assert(elems_wf(keyed@[i as int].1));
        }
        let mut part = dup_elements(e.1);
        let ghost pm = part.deep_view();
        r.append(&mut part);
        proof {
            assert(keyed@.subrange(0, i + 1).drop_last() =~= keyed@.subrange(0, i as int));
            assert(keyed@.subrange(0, i + 1).last() == keyed@[i as int]);
            assert(r.deep_view() =~= pre + pm);
        }
        i = i + 1;
    }
    proof {
        assert(keyed@.subrange(0, n as int) =~= keyed@);
    }
    r
}

} // verus!
