//! A declarative, multi-target web-scraping pipeline engine.
//!
//! An operator describes named DOM selectors (targets), browser actions
//! (click, type, wait, screenshot, save) and an ordered step list in a YAML
//! document; the engine resolves alias steps, dispatches each step to a
//! browser session, accumulates per-target element records and screenshots,
//! and can fan the same pipeline out over many URLs.

pub mod doc;
pub mod emit;
pub mod load;
pub mod model;
pub mod pipeline;
pub mod proxy;
pub mod resolve;
pub mod scraper;
pub mod selector;
pub mod session;
pub mod strmap;
pub mod strutil;
pub mod utils;

pub use model::{
    Action, ActionClick, ActionData, ActionSave, ActionScreenshot, ActionTypeInto,
    ActionWait, ConfigError, DOMElement, Pipeline, PipelineConfig, ScrapingResult,
    ScreenshotFormat, Target,
};
pub use pipeline::{PipelineRunner, ScrapingPipeline};
pub use scraper::ScraperBuilder;
pub use selector::is_xpath;
pub use utils::img_to_base64;
