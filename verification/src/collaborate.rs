//! When the Collaborate commands may be used, and what the interface says
//! when they may not.
//!
//! Each gate names what is missing rather than leaving a button greyed with
//! nothing to read: a control that says what is missing says what to do
//! next. The session itself is the caller's; what is kept here is whether
//! there is one, and what the network is doing.

use vstd::prelude::*;
use vstd::string::StringExecFns;
use crate::changes::{gap_explained, gap_text, highest_acknowledged};
use crate::state::{sent_message, sent_text, CheckOutcome, Working};
use crate::text::{chars_of, is_whitespace, is_ws, string_of, trim, trim_chars};
use crate::version::{find, find_char, lemma_find, opt_view};

verus! {

/// Where this copy stands with the Collaborate server.
pub struct Collaboration {
    /// Whether Collaborate is turned on in Options.
    pub collaborate: bool,
    /// The server's address, as typed.
    pub server: String,
    /// The identity provider's address, as typed.
    pub idp_issuer: String,
    /// The client ID registered with it, as typed.
    pub idp_client_id: String,
    /// Whether somebody is signed in.
    pub signed_in: bool,
    /// Whether this plan is linked to a plan on the server.
    pub linked: bool,
    /// Whether this plan has a file to remember that link against.
    pub saved: bool,
    /// What the network is doing, if anything.
    pub working: Option<Working>,
    /// What the Collaborate page says.
    pub cloud_message: Option<String>,
    /// The invite box.
    pub invite_email: String,
    /// The role an invite gives.
    pub invite_role: String,
}

pub open spec fn busy_text() -> Seq<char> {
    "Something else is talking to the server. Wait for it to finish."@
}

pub open spec fn blank(s: Seq<char>) -> bool {
    trim(s).len() == 0
}

/// What is missing before a sign in can start, if anything.
pub open spec fn sign_in_gate(c: Collaboration) -> Option<Seq<char>> {
    if blank(c.idp_issuer@) {
        Some("Fill in the identity provider address first."@)
    } else if blank(c.idp_client_id@) {
        Some("Fill in the client ID first."@)
    } else if c.working is Some {
        Some(busy_text())
    } else {
        None
    }
}

/// Why the sync commands cannot be used, if they cannot.
pub open spec fn sync_gate(c: Collaboration) -> Option<Seq<char>> {
    if !c.collaborate {
        Some("Alterion Collaborate is turned off. Turn it on in Options to sync this plan."@)
    } else if blank(c.server@) {
        Some(
            "No Collaborate server address is set. Fill it in in Options, under Alterion Collaborate."@,
        )
    } else if !c.signed_in {
        Some("Not signed in. Sign in from Options, under Alterion Collaborate."@)
    } else if !c.linked {
        Some(
            "This plan is on this machine only. Put it on the server from Options, under Alterion Collaborate."@,
        )
    } else if c.working is Some {
        Some(busy_text())
    } else {
        None
    }
}

/// Why this plan cannot be put on the server, if it cannot.
pub open spec fn publish_gate(c: Collaboration) -> Option<Seq<char>> {
    if !c.collaborate {
        Some("Alterion Collaborate is turned off. Turn it on in Options."@)
    } else if blank(c.server@) {
        Some("No Collaborate server address is set. Fill it in in Options."@)
    } else if !c.signed_in {
        Some("Not signed in. Sign in first."@)
    } else if c.linked {
        Some("This plan is already on the server."@)
    } else if !c.saved {
        Some("Save this plan to a file first, so the link to the server can be kept."@)
    } else if c.working is Some {
        Some(busy_text())
    } else {
        None
    }
}

/// Why the sharing cannot be read or changed, if it cannot.
pub open spec fn sharing_gate(c: Collaboration) -> Option<Seq<char>> {
    if !c.collaborate {
        Some("Alterion Collaborate is turned off. Turn it on in Options."@)
    } else if blank(c.server@) {
        Some("No Collaborate server address is set. Fill it in above."@)
    } else if !c.signed_in {
        Some("Not signed in. Sign in first."@)
    } else if !c.linked {
        Some(
            "This plan is on this machine only, so there is nobody to share it with yet. Put it on the server first."@,
        )
    } else if c.working is Some {
        Some(busy_text())
    } else {
        None
    }
}

pub open spec fn has_whitespace(s: Seq<char>) -> bool {
    exists|k: int| 0 <= k < s.len() && is_ws(#[trigger] s[k])
}

/// What the invite box amounts to: the address, trimmed, or why it is not
/// one.
pub open spec fn invite_address(typed: Seq<char>) -> Result<Seq<char>, Seq<char>> {
    let t = trim(typed);
    if t.len() == 0 {
        Err("Type the email address of whoever you want to invite."@)
    } else {
        match find(t, '@') {
            None => Err("That is not an email address. It needs an @ in it."@),
            Some(at) => if at == 0 || at + 1 == t.len() || has_whitespace(t) {
                Err("That is not an email address. One address, with no spaces."@)
            } else {
                Ok(t)
            },
        }
    }
}

pub open spec fn stopped_text(what: Seq<char>) -> Seq<char> {
    what + " stopped unexpectedly. Try it again."@
}

/// Who a sign in is shown as: the email address, or the name where there is
/// none.
pub open spec fn shown_as(name: Seq<char>, email: Seq<char>) -> Seq<char> {
    if email.len() == 0 {
        name
    } else {
        email
    }
}

pub open spec fn signed_out_text() -> Seq<char> {
    "Signed out. Nothing has been removed from this machine."@
}

fn from(s: &str) -> (r: String)
    ensures
        r@ == s@,
{
    s.to_owned()
}

fn opt_text(s: Option<&str>) -> (r: Option<String>)
    ensures
        opt_view(r) == (match s {
            Some(t) => Some(t@),
            None => None,
        }),
{
    match s {
        Some(t) => Some(from(t)),
        None => None,
    }
}

/// Whether a typed field holds nothing but whitespace.
fn is_blank(s: &str) -> (r: bool)
    ensures
        r == blank(s@),
{
    let chars = chars_of(s);
    trim_chars(&chars).len() == 0
}

/// A typed field with the whitespace round it taken off.
fn trimmed(s: &str) -> (r: String)
    ensures
        r@ == trim(s@),
{
    let chars = chars_of(s);
    let t = trim_chars(&chars);
    string_of(&t)
}

fn any_whitespace(s: &Vec<char>) -> (r: bool)
    ensures
        r == has_whitespace(s@),
{
    let mut i: usize = 0;
    while i < s.len()
        invariant
            i <= s.len(),
            forall|k: int| 0 <= k < i ==> !is_ws(#[trigger] s@[k]),
        decreases s.len() - i,
    {
        if is_whitespace(s[i]) {
            return true;
        }
        i = i + 1;
    }
    false
}

impl Collaboration {
    /// What is missing before a sign in can be started, if anything.
    pub fn sign_in_blocked(&self) -> (r: Option<&'static str>)
        ensures
            (match r {
                Some(t) => Some(t@),
                None => None,
            }) == sign_in_gate(*self),
    {
        if is_blank(self.idp_issuer.as_str()) {
            return Some("Fill in the identity provider address first.");
        }
        if is_blank(self.idp_client_id.as_str()) {
            return Some("Fill in the client ID first.");
        }
        if self.working.is_some() {
            return Some("Something else is talking to the server. Wait for it to finish.");
        }
        None
    }

    /// Hand over what a sign in needs, the provider's address and the client
    /// ID, trimmed, and mark this copy as waiting for it.
    pub fn start_sign_in(&mut self) -> (r: Option<(String, String)>)
        ensures
            sign_in_gate(*old(self)) is Some ==> r is None && *final(self) == *old(self),
            sign_in_gate(*old(self)) is None ==> {
                &&& r matches Some((issuer, client)) && issuer@ == trim(old(self).idp_issuer@)
                    && client@ == trim(old(self).idp_client_id@)
                &&& *final(self) == (Collaboration {
                    working: Some(Working::SigningIn),
                    cloud_message: None,
                    ..*old(self)
                })
            },
    {
        if self.sign_in_blocked().is_some() {
            return None;
        }
        self.working = Some(Working::SigningIn);
        self.cloud_message = None;
        Some((trimmed(self.idp_issuer.as_str()), trimmed(self.idp_client_id.as_str())))
    }

    /// What a sign in came back with: who signed in, by name and email
    /// address, or why it did not happen. On success, the status line to show.
    pub fn sign_in_landed(&mut self, outcome: Result<(String, String), String>) -> (r: Option<String>)
        ensures
            final(self).working is None,
            match outcome {
                Ok((name, email)) => {
                    &&& final(self).signed_in
                    &&& opt_view(final(self).cloud_message) == Some(
                        "Signed in as "@ + shown_as(name@, email@) + "."@,
                    )
                    &&& opt_view(r) == Some("Signed in as "@ + shown_as(name@, email@))
                },
                Err(why) => {
                    &&& final(self).signed_in == old(self).signed_in
                    &&& opt_view(final(self).cloud_message) == Some(why@)
                    &&& r is None
                },
            },
            final(self).collaborate == old(self).collaborate,
            final(self).server == old(self).server,
            final(self).linked == old(self).linked,
            final(self).saved == old(self).saved,
    {
        self.working = None;
        match outcome {
            Ok((name, email)) => {
                let who = if email.unicode_len() == 0 {
                    name
                } else {
                    email
                };
                let mut status = from("Signed in as ");
                status.append(who.as_str());
                let mut said = from("Signed in as ");
                said.append(who.as_str());
                said.append(".");
                self.signed_in = true;
                self.cloud_message = Some(said);
                Some(status)
            },
            Err(why) => {
                self.cloud_message = Some(why);
                None
            },
        }
    }

    /// What a sign out came back with. Signed out here either way: a person
    /// who pressed Sign out is signed out, and the message says what did not
    /// happen. The status line to show.
    pub fn sign_out_landed(&mut self, outcome: Result<(), String>) -> (status: String)
        ensures
            status@ == "Signed out"@,
            final(self).working is None,
            !final(self).signed_in,
            opt_view(final(self).cloud_message) == Some(
                match outcome {
                    Ok(()) => signed_out_text(),
                    Err(why) => why@,
                },
            ),
            final(self).linked == old(self).linked,
            final(self).saved == old(self).saved,
    {
        self.working = None;
        self.signed_in = false;
        self.cloud_message = Some(
            match outcome {
                Ok(()) => from("Signed out. Nothing has been removed from this machine."),
                Err(why) => why,
            },
        );
        from("Signed out")
    }

    /// Take the session for a worker doing `working`, and say what it is
    /// doing. Nothing is handed over while other work is under way, or when
    /// there is no session.
    ///
    /// The session is moved rather than shared: two workers renewing from one
    /// record would each spend the other's refresh token.
    pub fn hand_over<S>(&mut self, session: &mut Option<S>, working: Working) -> (r: Option<S>)
        ensures
            old(self).working is Some || old(session).is_none() ==> {
                &&& r is None
                &&& *final(self) == *old(self)
                &&& *final(session) == *old(session)
            },
            old(self).working is None && old(session).is_some() ==> {
                &&& r == *old(session)
                &&& final(session).is_none()
                &&& *final(self) == (Collaboration {
                    working: Some(working),
                    cloud_message: None,
                    ..*old(self)
                })
            },
    {
        if self.working.is_some() {
            return None;
        }
        match session.take() {
            Some(s) => {
                self.working = Some(working);
                self.cloud_message = None;
                Some(s)
            },
            None => None,
        }
    }

    /// Take the session back when the work is done.
    pub fn hand_back<S>(&mut self, slot: &mut Option<S>, session: S)
        ensures
            *final(slot) == Some(session),
            *final(self) == (Collaboration { working: None, signed_in: true, ..*old(self) }),
    {
        *slot = Some(session);
        self.signed_in = true;
        self.working = None;
    }

    /// A worker that never came back. The session went with it.
    pub fn worker_lost(&mut self, what: &str)
        ensures
            final(self).working is None,
            opt_view(final(self).cloud_message) == Some(stopped_text(what@)),
            final(self).signed_in == old(self).signed_in,
            final(self).linked == old(self).linked,
    {
        self.working = None;
        let mut said = from(what);
        said.append(" stopped unexpectedly. Try it again.");
        self.cloud_message = Some(said);
    }

    /// Why the sync commands cannot be used, if they cannot.
    pub fn sync_blocked(&self) -> (r: Option<String>)
        ensures
            opt_view(r) == sync_gate(*self),
    {
        let t = if !self.collaborate {
            Some("Alterion Collaborate is turned off. Turn it on in Options to sync this plan.")
        } else if is_blank(self.server.as_str()) {
            Some(
                "No Collaborate server address is set. Fill it in in Options, under Alterion Collaborate.",
            )
        } else if !self.signed_in {
            Some("Not signed in. Sign in from Options, under Alterion Collaborate.")
        } else if !self.linked {
            Some(
                "This plan is on this machine only. Put it on the server from Options, under Alterion Collaborate.",
            )
        } else if self.working.is_some() {
            Some("Something else is talking to the server. Wait for it to finish.")
        } else {
            None
        };
        opt_text(t)
    }

    /// Why this plan cannot be put on the server, if it cannot. The link is
    /// remembered against the file, so a plan never saved cannot be.
    pub fn publish_blocked(&self) -> (r: Option<String>)
        ensures
            opt_view(r) == publish_gate(*self),
    {
        let t = if !self.collaborate {
            Some("Alterion Collaborate is turned off. Turn it on in Options.")
        } else if is_blank(self.server.as_str()) {
            Some("No Collaborate server address is set. Fill it in in Options.")
        } else if !self.signed_in {
            Some("Not signed in. Sign in first.")
        } else if self.linked {
            Some("This plan is already on the server.")
        } else if !self.saved {
            Some("Save this plan to a file first, so the link to the server can be kept.")
        } else if self.working.is_some() {
            Some("Something else is talking to the server. Wait for it to finish.")
        } else {
            None
        };
        opt_text(t)
    }

    /// Why the sharing cannot be read or changed, if it cannot.
    pub fn sharing_blocked(&self) -> (r: Option<String>)
        ensures
            opt_view(r) == sharing_gate(*self),
    {
        let t = if !self.collaborate {
            Some("Alterion Collaborate is turned off. Turn it on in Options.")
        } else if is_blank(self.server.as_str()) {
            Some("No Collaborate server address is set. Fill it in above.")
        } else if !self.signed_in {
            Some("Not signed in. Sign in first.")
        } else if !self.linked {
            Some(
                "This plan is on this machine only, so there is nobody to share it with yet. Put it on the server first.",
            )
        } else if self.working.is_some() {
            Some("Something else is talking to the server. Wait for it to finish.")
        } else {
            None
        };
        opt_text(t)
    }

    /// What the invite box currently amounts to, with the role it gives, or
    /// why it does not. A courtesy check: the server's is the one that counts.
    pub fn invite_ready(&self) -> (r: Result<(String, String), String>)
        ensures
            match invite_address(self.invite_email@) {
                Ok(address) => r matches Ok((a, role)) && a@ == address && role@ == self.invite_role@,
                Err(why) => r matches Err(e) && e@ == why,
            },
    {
        let chars = chars_of(self.invite_email.as_str());
        let typed = trim_chars(&chars);
        if typed.len() == 0 {
            return Err(from("Type the email address of whoever you want to invite."));
        }
        proof {
            lemma_find(typed@, '@');
        }
        let at = match find_char(&typed, '@') {
            Some(at) => at,
            None => {
                return Err(from("That is not an email address. It needs an @ in it."));
            },
        };
        if at == 0 || at + 1 == typed.len() || any_whitespace(&typed) {
            return Err(from("That is not an email address. One address, with no spaces."));
        }
        Ok((string_of(&typed), self.invite_role.clone()))
    }
}

/// What the server answered a sync with, as plain values.
pub enum PushAnswer {
    /// The sync could not be done; `gone` when the plan is no longer on the
    /// server at all.
    Refused { why: String, gone: bool },
    /// The work went in: the server's head, and each local id it took with
    /// the seq it gave it.
    Applied { head: i64, applied: Vec<(u64, i64)> },
    /// Somebody else changed the plan first; this many changes came back,
    /// and `sentence` is what the comparison of them with this copy says.
    Behind { head: i64, changes: usize, sentence: String },
    /// The server's log was trimmed past this copy's place in it.
    Gap { head: i64, oldest: Option<i64> },
    /// This copy claims a place past the server's head.
    Ahead { head: i64, cursor: i64 },
}

/// What is put in front of somebody after a sync.
pub enum SyncDialog {
    Nothing,
    /// Their work is waiting to be looked at and taken, with what the
    /// comparison says of it.
    Behind { head: i64, sentence: String },
    /// Only a fresh whole plan will do, and why.
    FreshCopy(String),
    /// The two logs share numbers but not events.
    Ahead { head: i64, cursor: i64 },
}

/// What a sync's answer does.
pub struct SyncOutcome {
    /// How the last check came out.
    pub checked: CheckOutcome,
    /// The status line.
    pub status: String,
    /// What the Collaborate page now says, where the answer says something.
    pub message: Option<String>,
    /// The highest local id the server acknowledged: that and everything
    /// before it is sent.
    pub mark_pushed: Option<u64>,
    /// The head this copy has now read to.
    pub reached: Option<i64>,
    /// Whether the local copy of the plan is now out of date.
    pub touch_local_copy: bool,
    /// Whether the link to the server is to be forgotten, the plan being gone
    /// from it.
    pub forget_link: bool,
    pub dialog: SyncDialog,
}

pub open spec fn failed_with(c: CheckOutcome, why: Seq<char>) -> bool {
    c matches CheckOutcome::Failed(w) && w@ == why
}

/// What a sync's answer does: the check it records, what is said, what is
/// marked as sent, how far the log has been read, and what is put in front
/// of somebody.
pub fn push_answered(answer: PushAnswer) -> (r: SyncOutcome)
    ensures
        match answer {
            PushAnswer::Refused { why, gone } => {
                &&& failed_with(r.checked, why@)
                &&& r.status@ == "Could not sync"@
                &&& opt_view(r.message) == Some(why@)
                &&& r.mark_pushed is None && r.reached is None && !r.touch_local_copy
                &&& r.forget_link == gone
                &&& r.dialog is Nothing
            },
            PushAnswer::Applied { head, applied } => {
                &&& r.checked == CheckOutcome::Current
                &&& r.status@ == sent_text(applied.len() as nat)
                &&& opt_view(r.message) == Some(sent_text(applied.len() as nat))
                &&& (applied.len() == 0 ==> r.mark_pushed is None)
                &&& (applied.len() > 0 ==> (r.mark_pushed matches Some(h) && (exists|i: int|
                    0 <= i < applied.len() && #[trigger] applied@[i].0 == h) && (forall|i: int|
                    0 <= i < applied.len() ==> #[trigger] applied@[i].0 <= h)))
                &&& r.reached == Some(head)
                &&& r.touch_local_copy && !r.forget_link
                &&& r.dialog is Nothing
            },
            PushAnswer::Behind { head, changes, sentence } => {
                &&& r.checked == (CheckOutcome::Behind { by: changes as i64 })
                &&& r.status@ == "Somebody else changed this plan first"@
                &&& opt_view(r.message) == Some(sentence@)
                &&& r.mark_pushed is None && r.reached is None && !r.touch_local_copy
                &&& !r.forget_link
                &&& (r.dialog matches SyncDialog::Behind { head: h, sentence: said } && h == head
                    && said@ == sentence@)
            },
            PushAnswer::Gap { head, oldest } => {
                &&& failed_with(r.checked, "the log this copy needs has been trimmed"@)
                &&& r.status@ == "This copy is too far behind to catch up"@
                &&& r.message is None
                &&& r.mark_pushed is None && r.reached is None && !r.touch_local_copy
                &&& !r.forget_link
                &&& (r.dialog matches SyncDialog::FreshCopy(why) && why@ == gap_text(
                    head as int,
                    match oldest {
                        Some(o) => Some(o as int),
                        None => None,
                    },
                ))
            },
            PushAnswer::Ahead { head, cursor } => {
                &&& failed_with(r.checked, "this copy is not on the same log"@)
                &&& r.status@ == "This plan is not the one the server holds"@
                &&& r.message is None
                &&& r.mark_pushed is None && r.reached is None && !r.touch_local_copy
                &&& !r.forget_link
                &&& r.dialog == (SyncDialog::Ahead { head, cursor })
            },
        },
{
    match answer {
        PushAnswer::Refused { why, gone } => {
            let message = why.clone();
            SyncOutcome {
                checked: CheckOutcome::Failed(why),
                status: from("Could not sync"),
                message: Some(message),
                mark_pushed: None,
                reached: None,
                touch_local_copy: false,
                forget_link: gone,
                dialog: SyncDialog::Nothing,
            }
        },
        PushAnswer::Applied { head, applied } => {
            let said = sent_message(applied.len());
            let message = said.clone();
            SyncOutcome {
                checked: CheckOutcome::Current,
                status: said,
                message: Some(message),
                mark_pushed: highest_acknowledged(&applied),
                reached: Some(head),
                touch_local_copy: true,
                forget_link: false,
                dialog: SyncDialog::Nothing,
            }
        },
        PushAnswer::Behind { head, changes, sentence } => {
            let message = sentence.clone();
            SyncOutcome {
                checked: CheckOutcome::Behind { by: changes as i64 },
                status: from("Somebody else changed this plan first"),
                message: Some(message),
                mark_pushed: None,
                reached: None,
                touch_local_copy: false,
                forget_link: false,
                dialog: SyncDialog::Behind { head, sentence },
            }
        },
        PushAnswer::Gap { head, oldest } => SyncOutcome {
            checked: CheckOutcome::Failed(from("the log this copy needs has been trimmed")),
            status: from("This copy is too far behind to catch up"),
            message: None,
            mark_pushed: None,
            reached: None,
            touch_local_copy: false,
            forget_link: false,
            dialog: SyncDialog::FreshCopy(gap_explained(head, oldest)),
        },
        PushAnswer::Ahead { head, cursor } => SyncOutcome {
            checked: CheckOutcome::Failed(from("this copy is not on the same log")),
            status: from("This plan is not the one the server holds"),
            message: None,
            mark_pushed: None,
            reached: None,
            touch_local_copy: false,
            forget_link: false,
            dialog: SyncDialog::Ahead { head, cursor },
        },
    }
}

/// No gate lets work start while other work is talking to the server.
pub proof fn one_conversation_at_a_time(c: Collaboration)
    requires
        c.working is Some,
    ensures
        sign_in_gate(c) is Some,
        sync_gate(c) is Some,
        publish_gate(c) is Some,
        sharing_gate(c) is Some,
{
}

/// A plan can be synced or shared only once it is on the server, and put on
/// the server only while it is not.
pub proof fn publishing_and_syncing_never_both_open(c: Collaboration)
    ensures
        !(publish_gate(c) is None && sync_gate(c) is None),
        !(publish_gate(c) is None && sharing_gate(c) is None),
{
}

} // verus!
