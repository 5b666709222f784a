//! The offer of a newer release, as the interface holds it between checks.
//!
//! A check's answer lands here, and so does an install's. Not reaching a
//! release host is told to the page that asked and never raised on its own.
//! A skipped release is remembered by its version, so the answer stays about
//! that release alone.

use vstd::prelude::*;
use crate::release::{self_updating, why_not_text, Found, Installed, Platform};
use crate::text::same_text;
use crate::version::{is_newer, opt_view, version_order, Order};

verus! {

/// What the interface knows about updates.
pub struct UpdateOffer {
    /// The release on offer, if a check found one worth offering.
    pub found: Option<Found>,
    /// What the updater page says about the last check or install.
    pub message: Option<String>,
    /// Whether a check or an install is under way.
    pub updating: bool,
    /// What the last install left in place.
    pub ready: Option<Installed>,
    /// The one version the user chose not to be offered, or nothing.
    pub skip_version: String,
    /// The status bar.
    pub status: String,
}

/// An [`UpdateOffer`] with its text taken as characters.
pub struct OfferView {
    pub found: Option<Found>,
    pub message: Option<Seq<char>>,
    pub updating: bool,
    pub ready: Option<Installed>,
    pub skip: Seq<char>,
    pub status: Seq<char>,
}

impl View for UpdateOffer {
    type V = OfferView;

    open spec fn view(&self) -> OfferView {
        OfferView {
            found: self.found,
            message: opt_view(self.message),
            updating: self.updating,
            ready: self.ready,
            skip: self.skip_version@,
            status: self.status@,
        }
    }
}

/// Whether `version` is the one the user chose to skip. No skip recorded
/// skips nothing.
pub open spec fn skips(skip: Seq<char>, version: Seq<char>) -> bool {
    skip.len() > 0 && skip == version
}

pub open spec fn skipped_text(version: Seq<char>) -> Seq<char> {
    "Version "@ + version
        + " is available. You chose to skip it, so it is not offered. Options, under General, offers it again."@
}

pub open spec fn available_text(version: Seq<char>) -> Seq<char> {
    "Version "@ + version + " is available"@
}

pub open spec fn newest_text(running: Seq<char>) -> Seq<char> {
    "Version "@ + running + " is the newest there is."@
}

pub open spec fn unsaved_text() -> Seq<char> {
    "This plan has unsaved changes. Save it first, because installing an update                  replaces the running program."@
}

pub open spec fn fetching_text() -> Seq<char> {
    "An update is already being fetched."@
}

pub open spec fn not_offered_again_text(version: Seq<char>) -> Seq<char> {
    "Version "@ + version + " will not be offered again. Later versions still will."@
}

pub open spec fn offered_again_text(version: Seq<char>) -> Seq<char> {
    "Version "@ + version + " will be offered again at the next check."@
}

pub open spec fn replaced_text(kept: Seq<char>) -> Seq<char> {
    "The new version is in place and starts the next time you open this                          application. The previous one has been kept at "@
        + kept + "."@
}

pub open spec fn downloaded_text() -> Seq<char> {
    "The installer has been downloaded and checked against its published checksum. Installing closes this application, which is what frees its files to be replaced, and starts the new version when it is done."@
}

pub open spec fn installed_text(installed: Installed) -> Seq<char> {
    match installed {
        Installed::Replaced { kept } => replaced_text(kept@),
        Installed::Downloaded { .. } => downloaded_text(),
    }
}

/// What a check's answer does to the offer, on a copy running `running`.
pub open spec fn landed(
    o: OfferView,
    outcome: Result<Option<Found>, String>,
    running: Seq<char>,
) -> OfferView {
    match outcome {
        Ok(Some(f)) => if skips(o.skip, f.version@) {
            OfferView { found: None, message: Some(skipped_text(f.version@)), updating: false, ..o }
        } else {
            OfferView {
                found: Some(f),
                message: None,
                updating: false,
                status: available_text(f.version@),
                ..o
            }
        },
        Ok(None) => OfferView {
            found: None,
            message: Some(newest_text(running)),
            updating: false,
            ..o
        },
        Err(why) => OfferView { found: None, message: Some(why@), updating: false, ..o },
    }
}

/// Why an install cannot start now, if it cannot.
pub open spec fn blocked(o: OfferView, dirty: bool, platform: Platform) -> Option<Seq<char>> {
    if dirty {
        Some(unsaved_text())
    } else if o.updating {
        Some(fetching_text())
    } else {
        match o.found {
            Some(f) => why_not_text(f, platform),
            None => None,
        }
    }
}

/// The offer after the release on offer is refused for good.
pub open spec fn skipped(o: OfferView) -> OfferView {
    match o.found {
        None => o,
        Some(f) => OfferView {
            found: None,
            message: None,
            skip: f.version@,
            status: not_offered_again_text(f.version@),
            ..o
        },
    }
}

/// The offer after a skip is withdrawn.
pub open spec fn withdrawn(o: OfferView) -> OfferView {
    if o.skip.len() == 0 {
        o
    } else {
        OfferView { skip: Seq::empty(), status: offered_again_text(o.skip), ..o }
    }
}

/// What an install's answer does to the offer.
pub open spec fn install_answered(o: OfferView, outcome: Result<Installed, String>) -> OfferView {
    match outcome {
        Ok(i) => OfferView {
            found: None,
            message: Some(installed_text(i)),
            updating: false,
            ready: Some(i),
            ..o
        },
        Err(why) => OfferView { message: Some(why@), updating: false, ..o },
    }
}

/// The offer once a skip this copy has already gone past is dropped.
pub open spec fn spent_skip_dropped(o: OfferView, running: Seq<char>) -> OfferView {
    if version_order(o.skip, running) == Order::Greater {
        o
    } else {
        OfferView { skip: Seq::empty(), ..o }
    }
}

fn from(s: &str) -> (r: String)
    ensures
        r@ == s@,
{
    s.to_owned()
}

/// `"Version " + version + tail`.
fn version_line(version: &str, tail: &str) -> (r: String)
    ensures
        r@ == "Version "@ + version@ + tail@,
{
    let mut r = from("Version ");
    r.append(version);
    r.append(tail);
    r
}

/// Whether `version` is the skipped one.
pub fn is_skipped(skip: &str, version: &str) -> (r: bool)
    ensures
        r == skips(skip@, version@),
{
    skip.unicode_len() > 0 && same_text(skip, version)
}

impl UpdateOffer {
    /// Nothing found, nothing skipped, nothing said.
    pub fn new() -> (r: Self)
        ensures
            r@.found is None,
            r@.message is None,
            !r@.updating,
            r@.ready is None,
            r@.skip.len() == 0,
            r@.status.len() == 0,
    {
        UpdateOffer {
            found: None,
            message: None,
            updating: false,
            ready: None,
            skip_version: String::new(),
            status: String::new(),
        }
    }

    /// Take in what a check came back with, on a copy running `running`.
    ///
    /// A skipped release found again is not offered and the status bar says
    /// nothing about it; the page that asked is told, and told where the skip
    /// can be withdrawn. A failure is kept for that page alone.
    pub fn update_landed(&mut self, outcome: Result<Option<Found>, String>, running: &str)
        ensures
            final(self)@ == landed(old(self)@, outcome, running@),
    {
        self.updating = false;
        match outcome {
            Ok(Some(found)) => {
                if is_skipped(self.skip_version.as_str(), found.version.as_str()) {
                    self.found = None;
                    self.message = Some(
                        version_line(
                            found.version.as_str(),
                            " is available. You chose to skip it, so it is not offered. Options, under General, offers it again.",
                        ),
                    );
                } else {
                    self.status = version_line(found.version.as_str(), " is available");
                    self.message = None;
                    self.found = Some(found);
                }
            },
            Ok(None) => {
                self.found = None;
                self.message = Some(version_line(running, " is the newest there is."));
            },
            Err(why) => {
                self.found = None;
                self.message = Some(why);
            },
        }
    }

    /// Why an update cannot be installed at this moment, if it cannot.
    ///
    /// Unsaved work comes first: installing replaces the running program, and
    /// a plan that only exists in this window would go with it.
    pub fn update_blocked(&self, dirty: bool, platform: Platform) -> (r: Option<String>)
        ensures
            opt_view(r) == blocked(self@, dirty, platform),
    {
        if dirty {
            return Some(
                from(
                    "This plan has unsaved changes. Save it first, because installing an update                  replaces the running program.",
                ),
            );
        }
        if self.updating {
            return Some(from("An update is already being fetched."));
        }
        match &self.found {
            Some(found) => found.why_not(platform),
            None => None,
        }
    }

    /// Never offer the release on offer again. Later versions still will be.
    pub fn skip_the_found_version(&mut self)
        ensures
            final(self)@ == skipped(old(self)@),
    {
        let found = match self.found.take() {
            Some(found) => found,
            None => {
                return;
            },
        };
        self.status = version_line(
            found.version.as_str(),
            " will not be offered again. Later versions still will.",
        );
        self.skip_version = found.version;
        self.message = None;
    }

    /// Withdraw a skip, so the version it named is offered at the next check.
    pub fn offer_the_skipped_version_again(&mut self)
        ensures
            final(self)@ == withdrawn(old(self)@),
    {
        if self.skip_version.unicode_len() == 0 {
            return;
        }
        self.status = version_line(
            self.skip_version.as_str(),
            " will be offered again at the next check.",
        );
        self.skip_version = String::new();
    }

    /// Take in what an install came back with.
    pub fn install_landed(&mut self, outcome: Result<Installed, String>)
        ensures
            final(self)@ == install_answered(old(self)@, outcome),
    {
        self.updating = false;
        match outcome {
            Ok(installed) => {
                let said = match &installed {
                    Installed::Replaced { kept } => {
                        let mut r = from(
                            "The new version is in place and starts the next time you open this                          application. The previous one has been kept at ",
                        );
                        r.append(kept.as_str());
                        r.append(".");
                        r
                    },
                    Installed::Downloaded { .. } => from(
                        "The installer has been downloaded and checked against its published checksum. Installing closes this application, which is what frees its files to be replaced, and starts the new version when it is done.",
                    ),
                };
                self.message = Some(said);
                self.ready = Some(installed);
                self.found = None;
            },
            Err(why) => {
                self.message = Some(why);
            },
        }
    }

    /// Drop a skip this copy, running `running`, has already gone past: the
    /// skipped release is behind it, so the record is spent.
    pub fn forget_a_spent_skip(&mut self, running: &str)
        ensures
            final(self)@ == spent_skip_dropped(old(self)@, running@),
    {
        if !is_newer(self.skip_version.as_str(), running) {
            self.skip_version = String::new();
        }
    }
}

/// A skip holds back the release it names, found again, and nothing else:
/// any other version is offered as though nothing had been skipped.
pub proof fn a_skip_holds_back_that_release_alone(
    o: OfferView,
    f: Found,
    g: Found,
    running: Seq<char>,
)
    requires
        o.found == Some(f),
        f.version@.len() > 0,
    ensures
        g.version@ == f.version@ ==> landed(skipped(o), Ok(Some(g)), running).found is None,
        g.version@ != f.version@ ==> landed(skipped(o), Ok(Some(g)), running).found == Some(g),
{
}

/// Once a skip is withdrawn, the release it named is offered when found.
pub proof fn withdrawing_a_skip_offers_the_release_again(o: OfferView, g: Found, running: Seq<char>)
    ensures
        landed(withdrawn(o), Ok(Some(g)), running).found == Some(g),
        withdrawn(o).skip.len() == 0,
{
}

/// Neither a skipped release found again nor a host that did not answer puts
/// anything in the status bar.
pub proof fn quiet_answers_leave_the_status_bar_alone(
    o: OfferView,
    g: Found,
    why: String,
    running: Seq<char>,
)
    requires
        skips(o.skip, g.version@),
    ensures
        landed(o, Ok(Some(g)), running).status == o.status,
        landed(o, Err(why), running).status == o.status,
        landed(o, Err(why), running).found is None,
{
}

/// Unsaved work blocks an install whatever else holds, and nothing blocks
/// one that is installable, not under way and over saved work.
pub proof fn unsaved_work_blocks_an_install(o: OfferView, platform: Platform)
    ensures
        blocked(o, true, platform) == Some(unsaved_text()),
        o.found matches Some(f) && !o.updating && self_updating(f.install, platform)
            && f.artefact is Some ==> blocked(o, false, platform) is None,
{
}

} // verus!
