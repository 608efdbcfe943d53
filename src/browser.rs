//! Decisions of the browser window session.
use vstd::prelude::*;
use crate::text::opt_text;

verus! {

/// A request to show a page in the browser window.
#[derive(Clone, Debug)]
pub struct WebViewRequest {
    pub url: String,
}

/// What the caller has to do for a browser request.
#[derive(Clone, Debug)]
pub enum BrowserAction {
    /// Nothing: the window already runs and no page was asked for.
    Nothing,
    /// Open a new window on this page, in a fresh profile.
    Launch { url: String },
    /// Open this page in a new tab of the running window.
    Navigate { url: String },
}

/// Whether a browser window runs, and the page it was last asked to show.
pub struct BrowserSession {
    pub running: bool,
    pub current_url: Option<String>,
}

impl BrowserSession {
    pub fn new() -> (r: Self)
        ensures
            !r.running,
            r.current_url is None,
    {
        BrowserSession { running: false, current_url: None }
    }

    /// A window is asked for, on `url` or on a blank page: a running window
    /// just goes to `url`, if there is one.
    pub fn start(&self, url: Option<String>) -> (r: BrowserAction)
        ensures
            self.running && url is None ==> r is Nothing,
            self.running && url is Some ==> (r matches BrowserAction::Navigate { url: u } && Some(u@)
                == opt_text(url)),
            !self.running ==> (r matches BrowserAction::Launch { url: u } && u@ == match url {
                Some(s) => s@,
                None => "about:blank"@,
            }),
    {
        if self.running {
            match url {
                Some(u) => BrowserAction::Navigate { url: u },
                None => BrowserAction::Nothing,
            }
        } else {
            match url {
                Some(u) => BrowserAction::Launch { url: u },
                None => BrowserAction::Launch { url: "about:blank".to_string() },
            }
        }
    }

    /// A page is asked for: only a running window can show it.
    pub fn navigate(&self, url: String) -> (r: Result<BrowserAction, String>)
        ensures
            self.running ==> (r matches Ok(BrowserAction::Navigate { url: u }) && u == url),
            !self.running ==> (r matches Err(e) && e@ == "Browser session not started"@),
    {
        if self.running {
            Ok(BrowserAction::Navigate { url })
        } else {
            Err("Browser session not started".to_string())
        }
    }

    /// Records that a window was launched on, or a tab opened at, `url`.
    pub fn opened(&mut self, url: String)
        ensures
            final(self).running,
            final(self).current_url == Some(url),
    {
        self.running = true;
        self.current_url = Some(url);
    }

    /// Records that the window is gone.
    pub fn closed(&mut self)
        ensures
            !final(self).running,
            final(self).current_url is None,
    {
        self.running = false;
        self.current_url = None;
    }

    /// Whether a window runs, and its page.
    pub fn status(&self) -> (r: (bool, Option<String>))
        ensures
            r.0 == self.running,
            r.1 == self.current_url,
    {
        let url = match &self.current_url {
            Some(u) => Some(u.clone()),
            None => None,
        };
        (self.running, url)
    }
}

} // verus!
