//! The scraper builder: the settings a browser-backed scraper is launched
//! with. Launching the browser itself is the caller's business; the
//! builder only carries the settings.

use vstd::prelude::*;
use crate::proxy::SimpleProxy;

verus! {

/// The settings a scraper is built with.
pub struct ScraperBuilder {
    pub proxies: Vec<SimpleProxy>,
    pub default_timeout: u64,
    pub headless: bool,
    pub save_dir: String,
}

impl Default for ScraperBuilder {
    /// The conventional settings: no proxies, a five-second timeout, a
    /// headless browser, and the usual output directory.
    fn default() -> (r: ScraperBuilder)
        ensures
            r.proxies@.len() == 0,
            r.default_timeout == 5,
            r.headless,
            r.save_dir@ == ".scraping_results/"@,
    {
        ScraperBuilder {
            proxies: Vec::new(),
            default_timeout: 5,
            headless: true,
            save_dir: ".scraping_results/".to_owned(),
        }
    }
}

impl ScraperBuilder {
    /// Sets whether the browser runs headless.
    pub fn set_headless(&mut self, headless: bool)
        ensures
            final(self).headless == headless,
            final(self).proxies == old(self).proxies,
            final(self).default_timeout == old(self).default_timeout,
            final(self).save_dir == old(self).save_dir,
    {
        self.headless = headless;
    }

    /// Sets the element-wait timeout, in seconds.
    pub fn set_default_timeout(&mut self, default_timeout: u64)
        ensures
            final(self).default_timeout == default_timeout,
            final(self).proxies == old(self).proxies,
            final(self).headless == old(self).headless,
            final(self).save_dir == old(self).save_dir,
    {
        self.default_timeout = default_timeout;
    }

    /// Sets the proxy list requests are routed through.
    pub fn set_proxies(&mut self, proxies: Vec<SimpleProxy>)
        ensures
            final(self).proxies == proxies,
            final(self).headless == old(self).headless,
            final(self).default_timeout == old(self).default_timeout,
            final(self).save_dir == old(self).save_dir,
    {
        self.proxies = proxies;
    }

    /// Sets the directory save documents are written to.
    pub fn set_save_dir(&mut self, save_dir: String)
        ensures
            final(self).save_dir == save_dir,
            final(self).proxies == old(self).proxies,
            final(self).headless == old(self).headless,
            final(self).default_timeout == old(self).default_timeout,
    {
        self.save_dir = save_dir;
    }
}

} // verus!
