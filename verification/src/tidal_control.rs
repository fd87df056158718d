//! The decisions of the web player worker: which page to load for each
//! command, without reloading the page that is already shown.

use vstd::prelude::*;

verus! {

/// A command to the web player worker.
#[derive(Debug)]
pub enum TidalCmd {
    Navigate(String),
    Html(String),
    Show,
    Hide,
    Quit,
}

/// What the web player worker does after a command.
#[derive(Debug)]
pub enum TidalAction {
    Quit,
    LoadUrl(String),
    LoadHtml(String),
    Show,
    Hide,
    Nothing,
}

/// The address of the page shown, as far as navigation is concerned.
#[derive(Debug)]
pub struct TidalNav {
    pub last_url: String,
}

/// The page the player opens with.
pub open spec fn start_url() -> Seq<char> {
    "https://listen.tidal.com"@
}

/// The address recorded while the built-in test page is shown.
pub open spec fn tone_page() -> Seq<char> {
    "about:tone"@
}

/// The address recorded after navigating from `last` to `url`.
pub open spec fn after_navigate(last: Seq<char>, url: Seq<char>) -> Seq<char> {
    url
}

/// Navigating from `last` to `url` loads a page only when the address changes.
pub open spec fn navigation_loads(last: Seq<char>, url: Seq<char>) -> bool {
    url != last
}

/// A navigation loads the requested address exactly when it differs from the
/// one shown, and then shows it; in particular, coming back to the start page
/// from any other page, the test page included, loads it again.
pub proof fn law_navigation_loads_every_new_address(last: Seq<char>, url: Seq<char>)
    ensures
        navigation_loads(last, url) <==> url != last,
        navigation_loads(last, url) ==> after_navigate(last, url) == url,
        last != start_url() ==> navigation_loads(last, start_url()),
        navigation_loads(tone_page(), start_url()),
{
    reveal_strlit("about:tone");
    reveal_strlit("https://listen.tidal.com");
    assert(tone_page().len() != start_url().len());
}

/// Asking again for the page just navigated to loads nothing: opening the
/// player twice does not reload it.
pub proof fn lemma_repeated_navigation_loads_nothing(last: Seq<char>, url: Seq<char>)
    ensures
        !navigation_loads(after_navigate(last, url), url),
{
}

impl TidalNav {
    /// The player starts on `start_url`.
    pub fn new() -> (r: TidalNav)
        ensures
            r.last_url@ == start_url(),
    {
        TidalNav { last_url: String::from_str("https://listen.tidal.com") }
    }

    /// Decides what a command does: a navigation loads the address only when
    /// it differs from the one shown (see `navigation_loads`); a test page is
    /// always loaded and recorded as `tone_page`.
    pub fn step(&mut self, cmd: TidalCmd) -> (action: TidalAction)
        ensures
            cmd matches TidalCmd::Navigate(url) ==> ((action is LoadUrl) <==> url@ != old(self).last_url@),
            cmd matches TidalCmd::Navigate(url) ==> final(self).last_url@ == url@,
            match cmd {
                TidalCmd::Navigate(url) => if navigation_loads(old(self).last_url@, url@) {
                    (action matches TidalAction::LoadUrl(u) && u@ == url@) && final(self).last_url@ == after_navigate(
                        old(self).last_url@,
                        url@,
                    )
                } else {
                    (action matches TidalAction::Nothing) && final(self).last_url@ == old(self).last_url@
                },
                TidalCmd::Html(html) => (action matches TidalAction::LoadHtml(h) && h@ == html@)
                    && final(self).last_url@ == tone_page(),
                TidalCmd::Show => (action matches TidalAction::Show) && final(self).last_url@ == old(self).last_url@,
                TidalCmd::Hide => (action matches TidalAction::Hide) && final(self).last_url@ == old(self).last_url@,
                TidalCmd::Quit => (action matches TidalAction::Quit) && final(self).last_url@ == old(self).last_url@,
            },
    {
        match cmd {
            TidalCmd::Navigate(url) => {
                if url != self.last_url {
                    self.last_url = url.clone();
                    TidalAction::LoadUrl(url)
                } else {
                    TidalAction::Nothing
                }
            },
            TidalCmd::Html(html) => {
                self.last_url = String::from_str("about:tone");
                TidalAction::LoadHtml(html)
            },
            TidalCmd::Show => TidalAction::Show,
            TidalCmd::Hide => TidalAction::Hide,
            TidalCmd::Quit => TidalAction::Quit,
        }
    }
}

} // verus!
