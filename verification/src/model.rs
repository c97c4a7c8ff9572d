//! The configuration and result data model: targets, actions, pipeline
//! settings, DOM element records, and the mathematical views the contracts
//! are stated over.

use vstd::prelude::*;
use crate::strmap::{StrMap, ahas, ainsert, auniq};

verus! {

/// A named DOM query; the result of the query is recorded under `name`.
pub struct Target {
    pub name: String,
    pub selector: String,
}

/// Mathematical view of a `Target`.
pub struct TargetModel {
    pub name: Seq<char>,
    pub selector: Seq<char>,
}

impl DeepView for Target {
    type V = TargetModel;

    open spec fn deep_view(&self) -> TargetModel {
        TargetModel { name: self.name@, selector: self.selector@ }
    }
}

impl Target {
    /// An exact copy.
    pub fn dup(&self) -> (r: Target)
        ensures
            r.deep_view() == self.deep_view(),
    {
        Target { name: self.name.clone(), selector: self.selector.clone() }
    }
}

/// A click on the element named by a selector.
pub struct ActionClick {
    pub selector: String,
}

/// A pause for a number of seconds.
pub struct ActionWait {
    pub duration: u32,
}

/// Typing text into the element named by `target`.
pub struct ActionTypeInto {
    pub target: String,
    pub text: String,
}

/// A screenshot of the element named by `target`.
pub struct ActionScreenshot {
    pub target: String,
    pub format: String,
}

/// Persisting a subset of the collected targets as JSON.
pub struct ActionSave {
    pub targets: Vec<String>,
    pub flatten: bool,
}

/// The payload of an action, discriminated structurally at load time.
pub enum ActionData {
    ActionClick(ActionClick),
    ActionScreenshot(ActionScreenshot),
    ActionWait(ActionWait),
    ActionTypeInto(ActionTypeInto),
    ActionSave(ActionSave),
}

/// Mathematical view of an `ActionData`.
pub enum ActionDataModel {
    Click { selector: Seq<char> },
    Screenshot { target: Seq<char>, format: Seq<char> },
    Wait { duration: u32 },
    TypeInto { target: Seq<char>, text: Seq<char> },
    Save { targets: Seq<Seq<char>>, flatten: bool },
}

impl DeepView for ActionData {
    type V = ActionDataModel;

    open spec fn deep_view(&self) -> ActionDataModel {
        match self {
            ActionData::ActionClick(a) => ActionDataModel::Click { selector: a.selector@ },
            ActionData::ActionScreenshot(a) => ActionDataModel::Screenshot {
                target: a.target@,
                format: a.format@,
            },
            ActionData::ActionWait(a) => ActionDataModel::Wait { duration: a.duration },
            ActionData::ActionTypeInto(a) => ActionDataModel::TypeInto {
                target: a.target@,
                text: a.text@,
            },
            ActionData::ActionSave(a) => ActionDataModel::Save {
                targets: a.targets.deep_view(),
                flatten: a.flatten,
            },
        }
    }
}

/// A named action.
pub struct Action {
    pub name: String,
    pub data: ActionData,
}

/// Mathematical view of an `Action`.
pub struct ActionModel {
    pub name: Seq<char>,
    pub data: ActionDataModel,
}

impl DeepView for Action {
    type V = ActionModel;

    open spec fn deep_view(&self) -> ActionModel {
        ActionModel { name: self.name@, data: self.data.deep_view() }
    }
}

/// Copies a list of strings, preserving the views.
pub fn dup_strings(v: &Vec<String>) -> (r: Vec<String>)
    ensures
        r.deep_view() == v.deep_view(),
{
    let mut r: Vec<String> = Vec::new();
    let n = v.len();
    let mut i: usize = 0;
    while i < n
        invariant
            n == v@.len(),
            0 <= i <= n,
            r@.len() == i,
            forall|j: int| 0 <= j < i ==> r@[j]@ == v@[j]@,
        decreases n - i,
    {
        r.push(v[i].clone());
        i = i + 1;
    }
    proof {
        assert(r.deep_view() =~= v.deep_view());
    }
    r
}

impl ActionData {
    /// An exact copy.
    pub fn dup(&self) -> (r: ActionData)
        ensures
            r.deep_view() == self.deep_view(),
    {
        match self {
            ActionData::ActionClick(a) => ActionData::ActionClick(
                ActionClick { selector: a.selector.clone() },
            ),
            ActionData::ActionScreenshot(a) => ActionData::ActionScreenshot(
                ActionScreenshot { target: a.target.clone(), format: a.format.clone() },
            ),
            ActionData::ActionWait(a) => ActionData::ActionWait(
                ActionWait { duration: a.duration },
            ),
            ActionData::ActionTypeInto(a) => ActionData::ActionTypeInto(
                ActionTypeInto { target: a.target.clone(), text: a.text.clone() },
            ),
            ActionData::ActionSave(a) => ActionData::ActionSave(
                ActionSave { targets: dup_strings(&a.targets), flatten: a.flatten },
            ),
        }
    }
}

/// The discriminating field of an action, the one its summary row shows:
/// the selector of a click, the duration of a wait, the text of a
/// type-into, the target of a screenshot; a save shows nothing.
pub open spec fn spec_data_summary(d: ActionDataModel) -> Seq<char> {
    match d {
        ActionDataModel::Click { selector } => selector,
        ActionDataModel::Wait { duration } => crate::strutil::spec_decimal(
            duration as nat,
        ),
        ActionDataModel::TypeInto { target, text } => text,
        ActionDataModel::Screenshot { target, format } => target,
        ActionDataModel::Save { targets, flatten } => Seq::empty(),
    }
}

impl Action {
    /// An exact copy.
    pub fn dup(&self) -> (r: Action)
        ensures
            r.deep_view() == self.deep_view(),
    {
        Action { name: self.name.clone(), data: self.data.dup() }
    }

    /// The action's summary field, as the pipeline summary shows it.
    pub fn data_summary(&self) -> (r: String)
        ensures
            r@ == spec_data_summary(self.data.deep_view()),
    {
        match &self.data {
            ActionData::ActionClick(a) => a.selector.clone(),
            ActionData::ActionWait(a) => crate::strutil::u32_to_string(a.duration),
            ActionData::ActionTypeInto(a) => a.text.clone(),
            ActionData::ActionScreenshot(a) => a.target.clone(),
            ActionData::ActionSave(_) => String::new(),
        }
    }
}

/// The pipeline's global settings.
pub struct Pipeline {
    pub name: String,
    pub url: String,
    pub headless: bool,
    pub out_dir: String,
    pub timeout: u64,
}

/// Mathematical view of the settings.
pub struct PipelineModel {
    pub name: Seq<char>,
    pub url: Seq<char>,
    pub headless: bool,
    pub out_dir: Seq<char>,
    pub timeout: u64,
}

impl DeepView for Pipeline {
    type V = PipelineModel;

    open spec fn deep_view(&self) -> PipelineModel {
        PipelineModel {
            name: self.name@,
            url: self.url@,
            headless: self.headless,
            out_dir: self.out_dir@,
            timeout: self.timeout,
        }
    }
}

/// A parsed pipeline document: settings, named targets and actions, and the
/// ordered step list.
pub struct PipelineConfig {
    pub pipeline: Pipeline,
    pub targets: StrMap<Target>,
    pub actions: StrMap<Action>,
    pub steps: Vec<String>,
}

/// Mathematical view of a `PipelineConfig`.
pub struct ConfigModel {
    pub pipeline: PipelineModel,
    pub targets: Seq<(Seq<char>, TargetModel)>,
    pub actions: Seq<(Seq<char>, ActionModel)>,
    pub steps: Seq<Seq<char>>,
}

impl DeepView for PipelineConfig {
    type V = ConfigModel;

    open spec fn deep_view(&self) -> ConfigModel {
        ConfigModel {
            pipeline: self.pipeline.deep_view(),
            targets: self.targets@,
            actions: self.actions@,
            steps: self.steps.deep_view(),
        }
    }
}

/// Well-formedness of a config: each registry keeps its keys distinct.
pub open spec fn config_wf(c: ConfigModel) -> bool {
    auniq(c.targets) && auniq(c.actions)
}

/// Every target and action carries the name it is registered under.
pub open spec fn names_bound(c: ConfigModel) -> bool {
    &&& forall|i: int| 0 <= i < c.targets.len() ==> (#[trigger] c.targets[i]).1.name
        == c.targets[i].0
    &&& forall|i: int| 0 <= i < c.actions.len() ==> (#[trigger] c.actions[i]).1.name
        == c.actions[i].0
}

/// A failure to load a pipeline document.
#[derive(Debug)]
pub struct ConfigError {
    pub reason: String,
}

/// The format of a captured screenshot.
#[derive(Clone, Copy, PartialEq, Eq, Structural, Debug)]
pub enum ScreenshotFormat {
    JPEG,
    PNG,
}

/// A scraped element: its inner text and its attributes, including the
/// synthetic `"tag"` attribute holding the element's local tag name.
pub struct DOMElement {
    pub text: String,
    pub attrs: StrMap<String>,
}

/// Mathematical view of a `DOMElement`.
pub struct DOMElementModel {
    pub text: Seq<char>,
    pub attrs: Seq<(Seq<char>, Seq<char>)>,
}

impl DeepView for DOMElement {
    type V = DOMElementModel;

    open spec fn deep_view(&self) -> DOMElementModel {
        DOMElementModel { text: self.text@, attrs: self.attrs@ }
    }
}

/// Copies an attribute map, preserving the view.
pub fn dup_attrs(m: &StrMap<String>) -> (r: StrMap<String>)
    requires
        auniq(m@),
    ensures
        r@ == m@,
{
    let mut r: StrMap<String> = StrMap::new();
    let n = m.len();
    let mut i: usize = 0;
    while i < n
        invariant
            auniq(m@),
            n == m@.len(),
            0 <= i <= n,
            r@ == m@.subrange(0, i as int),
        decreases n - i,
    {
        let e = m.entry_at(i);
        proof {
            assert(auniq(r@));
            assert(forall|j: int| 0 <= j < i ==> m@[j].0 != m@[i as int].0);
            assert(!ahas(r@, m@[i as int].0));
        }
        r.insert(e.0.clone(), e.1.clone());
        proof {
            assert(r@ =~= m@.subrange(0, i + 1));
        }
        i = i + 1;
    }
    proof {
        assert(m@.subrange(0, n as int) =~= m@);
    }
    r
}

impl DOMElement {
    /// An exact copy.
    pub fn dup(&self) -> (r: DOMElement)
        requires
            auniq(self.attrs@),
        ensures
            r.deep_view() == self.deep_view(),
    {
        DOMElement { text: self.text.clone(), attrs: dup_attrs(&self.attrs) }
    }
}

/// The attribute map built from the browser's flat `[k0, v0, k1, v1, ...]`
/// attribute list, read in pairs; a later pair overwrites an earlier key.
pub open spec fn attrs_upto(flat: Seq<Seq<char>>, n: int) -> Seq<(Seq<char>, Seq<char>)>
    decreases n,
{
    if n <= 1 {
        Seq::empty()
    } else {
        ainsert(attrs_upto(flat, n - 2), flat[n - 2], flat[n - 1])
    }
}

/// Builds an element record from the browser's flat attribute list and the
/// element's tag name: attributes are read in `[key, value]` pairs and the
/// synthetic `"tag"` attribute is added last.
pub fn element_from_flat(text: String, tag: String, flat: &Vec<String>) -> (r: DOMElement)
    ensures
        r.deep_view().text == text@,
        r.deep_view().attrs == ainsert(
            attrs_upto(flat.deep_view(), 2 * ((flat@.len() / 2) as int)),
            "tag"@,
            tag@,
        ),
        auniq(r.attrs@),
{
    let mut attrs: StrMap<String> = StrMap::new();
    let n = flat.len();
    let mut i: usize = 0;
    proof {
        assert(attrs@ =~= attrs_upto(flat.deep_view(), 0));
    }
    while i + 1 < n
        invariant
            n == flat@.len(),
            i == 0 || i <= n,
            i % 2 == 0,
            auniq(attrs@),
            attrs@ == attrs_upto(flat.deep_view(), i as int),
        decreases n - i,
    {
        let k = flat[i].clone();
        let v = flat[i + 1].clone();
        attrs.insert(k, v);
        proof {
            assert(attrs@ == attrs_upto(flat.deep_view(), i + 2));
        }
        i = i + 2;
    }
    proof {
        let ni = n as int;
        let ii = i as int;
        assert(ii % 2 == 0 && ii + 1 >= ni && (ii == 0 || ii <= ni));
        assert(ii == 2 * (ni / 2)) by (nonlinear_arith)
            requires
                ii % 2 == 0 && ii + 1 >= ni && ni >= 0 && (ii == 0 || ii <= ni),
        ;
    }
    attrs.insert("tag".to_owned(), tag);
    DOMElement { text, attrs }
}

/// Every element of a list keeps its attribute keys distinct.
pub open spec fn elems_wf(s: Seq<DOMElementModel>) -> bool {
    forall|i: int| 0 <= i < s.len() ==> auniq((#[trigger] s[i]).attrs)
}

/// An element accumulator keeps its keys distinct and holds well-formed
/// element lists.
pub open spec fn emap_wf(m: Seq<(Seq<char>, Seq<DOMElementModel>)>) -> bool {
    auniq(m) && forall|i: int| 0 <= i < m.len() ==> elems_wf((#[trigger] m[i]).1)
}

/// Copies a list of element records, preserving the views.
pub fn dup_elements(v: &Vec<DOMElement>) -> (r: Vec<DOMElement>)
    requires
        elems_wf(v.deep_view()),
    ensures
        r.deep_view() == v.deep_view(),
{
    let mut r: Vec<DOMElement> = Vec::new();
    let n = v.len();
    let mut i: usize = 0;
    while i < n
        invariant
            elems_wf(v.deep_view()),
            n == v@.len(),
            0 <= i <= n,
            r@.len() == i,
            forall|j: int| 0 <= j < i ==> r@[j].deep_view() == v@[j].deep_view(),
        decreases n - i,
    {
        proof {
            assert(v.deep_view()[i as int] == v@[i as int].deep_view());
        }
        r.push(v[i].dup());
        i = i + 1;
    }
    proof {
        assert(r.deep_view() =~= v.deep_view());
    }
    r
}

/// Copies a byte string.
pub fn dup_bytes(v: &Vec<u8>) -> (r: Vec<u8>)
    ensures
        r.deep_view() == v.deep_view(),
        r@ == v@,
{
    let mut r: Vec<u8> = Vec::new();
    let n = v.len();
    let mut i: usize = 0;
    while i < n
        invariant
            n == v@.len(),
            0 <= i <= n,
            r@.len() == i,
            forall|j: int| 0 <= j < i ==> r@[j] == v@[j],
        decreases n - i,
    {
        r.push(v[i]);
        i = i + 1;
    }
    proof {
        assert(r@ =~= v@);
        assert(r.deep_view() =~= v.deep_view());
    }
    r
}

/// The accumulated output of one pipeline run: element records and captured
/// screenshots, both keyed by target or action name.
pub struct ScrapingResult {
    pub elements: StrMap<Vec<DOMElement>>,
    pub screenshots: StrMap<Vec<u8>>,
}

/// Mathematical view of a `ScrapingResult`.
pub struct ResultModel {
    pub elements: Seq<(Seq<char>, Seq<DOMElementModel>)>,
    pub screenshots: Seq<(Seq<char>, Seq<u8>)>,
}

impl DeepView for ScrapingResult {
    type V = ResultModel;

    open spec fn deep_view(&self) -> ResultModel {
        ResultModel { elements: self.elements@, screenshots: self.screenshots@ }
    }
}

impl ScrapingResult {
    /// A result with no collected elements and no screenshots.
    pub fn empty() -> (r: ScrapingResult)
        ensures
            r.deep_view().elements.len() == 0,
            r.deep_view().screenshots.len() == 0,
    {
        ScrapingResult { elements: StrMap::new(), screenshots: StrMap::new() }
    }
}

} // verus!
