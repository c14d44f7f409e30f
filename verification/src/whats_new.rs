//! The one-time "what's new" card in the main window, shown after an update: whether a launch
//! shows it, and whether the window should show it now. The settings it reads and writes are
//! kept around the library.

use vstd::prelude::*;
use crate::text::{chars_of, eq_str, opt_string};

verus! {

/// The announcement this build carries. A new feature gets a new id to be announced once more.
pub const CURRENT_ANNOUNCEMENT: &'static str = "football-2026-09";

/// The setting holding the id of the announcement the user has already seen.
pub const SEEN_KEY: &'static str = "whats_new_seen";

/// The setting holding the version of the previous launch, so that an update can be told
/// apart from a fresh install.
pub const LAST_VERSION_KEY: &'static str = "last_run_version";

/// The announcement waiting for the main window in this launch, if any.
pub struct WhatsNewState(pub Option<String>);

/// What a launch does about the announcement.
pub enum LaunchDecision {
    /// The user saw it already.
    AlreadySeen,
    /// The feature it announces is not on this platform; it stays unseen for a later release.
    NotOnThisPlatform,
    /// A fresh install, or someone already using the football bubble: record it as seen.
    MarkSeen,
    /// Show it: the main window opens for it.
    Show,
}

/// The decision at startup. `used_before` tells a user of an earlier version from a fresh
/// install; `seen` is the id of the announcement seen last.
pub open spec fn launch_decision(
    used_before: bool,
    seen: Option<Seq<char>>,
    football_supported: bool,
    bubble_style: Option<Seq<char>>,
) -> LaunchDecision {
    if seen == Some(CURRENT_ANNOUNCEMENT@) {
        LaunchDecision::AlreadySeen
    } else if !football_supported {
        LaunchDecision::NotOnThisPlatform
    } else if !used_before || bubble_style == Some("football"@) {
        LaunchDecision::MarkSeen
    } else {
        LaunchDecision::Show
    }
}

fn is_current(o: &Option<String>) -> (b: bool)
    ensures
        b == (opt_string(*o) == Some(CURRENT_ANNOUNCEMENT@)),
{
    match o {
        Some(s) => eq_str(&chars_of(s.as_str()), CURRENT_ANNOUNCEMENT),
        None => false,
    }
}

pub fn decide_launch(
    used_before: bool,
    seen: &Option<String>,
    football_supported: bool,
    bubble_style: &Option<String>,
) -> (r: LaunchDecision)
    ensures
        r == launch_decision(
            used_before,
            opt_string(*seen),
            football_supported,
            opt_string(*bubble_style),
        ),
{
    if is_current(seen) {
        LaunchDecision::AlreadySeen
    } else if !football_supported {
        LaunchDecision::NotOnThisPlatform
    } else {
        let football = match bubble_style {
            Some(s) => eq_str(&chars_of(s.as_str()), "football"),
            None => false,
        };
        if !used_before || football {
            LaunchDecision::MarkSeen
        } else {
            LaunchDecision::Show
        }
    }
}

/// The settings a launch writes, in order: the running version, whatever was decided, and the
/// current announcement as seen when the launch marks it so. Nothing else is written.
pub open spec fn launch_writes(version: Seq<char>, d: LaunchDecision) -> Seq<(Seq<char>, Seq<char>)> {
    let base = seq![(LAST_VERSION_KEY@, version)];
    match d {
        LaunchDecision::MarkSeen => base.push((SEEN_KEY@, CURRENT_ANNOUNCEMENT@)),
        _ => base,
    }
}

/// The settings to write for a launch with the running `version` and the decision `d`, as
/// `(key, value)` pairs in order (see `launch_writes`).
pub fn launch_setting_writes(version: &str, d: &LaunchDecision) -> (r: Vec<(String, String)>)
    ensures
        crate::wiki_engine::pair_views(r@) == launch_writes(version@, *d),
{
    let mut r: Vec<(String, String)> = Vec::new();
    r.push((LAST_VERSION_KEY.to_owned(), version.to_owned()));
    match d {
        LaunchDecision::MarkSeen => {
            r.push((SEEN_KEY.to_owned(), CURRENT_ANNOUNCEMENT.to_owned()));
        },
        _ => {},
    }
    proof {
        assert(crate::wiki_engine::pair_views(r@) =~= launch_writes(version@, *d));
    }
    r
}

/// The announcement the window shows now: the pending one, unless it is the one seen last.
pub open spec fn offered(pending: Option<Seq<char>>, seen: Option<Seq<char>>) -> Option<
    Seq<char>,
> {
    match pending {
        Some(p) => if seen == Some(p) {
            None
        } else {
            Some(p)
        },
        None => None,
    }
}

impl WhatsNewState {
    pub fn new() -> (s: Self)
        ensures
            s.0 is None,
    {
        WhatsNewState(None)
    }

    /// Decides at startup whether this launch shows the card, and returns true when the main
    /// window should open for it; the card then waits here. Someone who used an earlier version
    /// (a recorded last version or first-run marker) gets it; a fresh install does not. Also
    /// returns the settings the launch writes (see `launch_writes`): the running `version`
    /// always, and the card marked as seen when the launch skips it for a fresh install or a
    /// user of the football bubble.
    pub fn prepare(
        &mut self,
        version: &str,
        last_version: &Option<String>,
        first_run_marker: &Option<String>,
        seen: &Option<String>,
        football_supported: bool,
        bubble_style: &Option<String>,
    ) -> (r: (bool, Vec<(String, String)>))
        ensures
            r.0 == (launch_decision(
                last_version is Some || first_run_marker is Some,
                opt_string(*seen),
                football_supported,
                opt_string(*bubble_style),
            ) is Show),
            crate::wiki_engine::pair_views(r.1@) == launch_writes(
                version@,
                launch_decision(
                    last_version is Some || first_run_marker is Some,
                    opt_string(*seen),
                    football_supported,
                    opt_string(*bubble_style),
                ),
            ),
            r.0 ==> opt_string(final(self).0) == Some(CURRENT_ANNOUNCEMENT@),
            !r.0 ==> final(self).0 == old(self).0,
    {
        let used_before = last_version.is_some() || first_run_marker.is_some();
        let decision = decide_launch(used_before, seen, football_supported, bubble_style);
        let writes = launch_setting_writes(version, &decision);
        match decision {
            LaunchDecision::Show => {
                self.0 = Some(CURRENT_ANNOUNCEMENT.to_owned());
                (true, writes)
            },
            _ => (false, writes),
        }
    }
}

/// The announcement the main window should show now, unless it has been seen already.
pub fn get_whats_new(whats_new: &WhatsNewState, seen: &Option<String>) -> (r: Option<String>)
    ensures
        opt_string(r) == offered(opt_string(whats_new.0), opt_string(*seen)),
{
    match &whats_new.0 {
        Some(p) => {
            let same = match seen {
                Some(s) => *s == *p,
                None => false,
            };
            if same {
                None
            } else {
                Some(p.clone())
            }
        },
        None => None,
    }
}

/// A launch that decided to show the card offers it to the window.
pub proof fn law_shown_card_is_offered(
    used_before: bool,
    seen: Option<Seq<char>>,
    football_supported: bool,
    bubble_style: Option<Seq<char>>,
)
    requires
        launch_decision(used_before, seen, football_supported, bubble_style) is Show,
    ensures
        offered(Some(CURRENT_ANNOUNCEMENT@), seen) == Some(CURRENT_ANNOUNCEMENT@),
{
}

/// Once the card on screen is marked as seen, it is never offered again, and no later launch
/// shows the current announcement.
pub proof fn law_seen_card_stays_away(
    pending: Seq<char>,
    used_before: bool,
    football_supported: bool,
    bubble_style: Option<Seq<char>>,
)
    ensures
        offered(Some(pending), Some(pending)) is None,
        launch_decision(
            used_before,
            Some(CURRENT_ANNOUNCEMENT@),
            football_supported,
            bubble_style,
        ) is AlreadySeen,
{
}

} // verus!
