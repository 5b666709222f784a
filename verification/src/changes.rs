//! What the change log says: the names of the fields and options its
//! sentences mention, the one sentence a grouped run of commands becomes,
//! and what is said when another copy's work does not fit.

use vstd::prelude::*;
use vstd::string::StringExecFns;
use crate::state::{rows_phrase, rows_text};
use crate::text::{
    chars_of, decimal, decimal_string, same_text, signed_decimal, signed_string, slice_chars,
    string_of, trim, trim_chars,
};

verus! {

/// A column of the resource sheet that a command can name.
#[derive(Debug, Clone, Copy, PartialEq, Eq, Structural)]
pub enum ResourceField {
    Name,
    Initials,
    Group,
    MaxUnits,
    Rate,
    Kind,
}

/// The resource sheet column a key names.
pub open spec fn resource_field_named(key: Seq<char>) -> Option<ResourceField> {
    if key == "name"@ {
        Some(ResourceField::Name)
    } else if key == "initials"@ {
        Some(ResourceField::Initials)
    } else if key == "group"@ {
        Some(ResourceField::Group)
    } else if key == "max"@ {
        Some(ResourceField::MaxUnits)
    } else if key == "rate"@ {
        Some(ResourceField::Rate)
    } else if key == "kind"@ {
        Some(ResourceField::Kind)
    } else {
        None
    }
}

pub open spec fn resource_field_text(field: ResourceField) -> Seq<char> {
    match field {
        ResourceField::Name => "Name"@,
        ResourceField::Initials => "Initials"@,
        ResourceField::Group => "Group"@,
        ResourceField::MaxUnits => "Max Units"@,
        ResourceField::Rate => "Rate"@,
        ResourceField::Kind => "Type"@,
    }
}

/// The resource sheet column a key names, for the commands that carry one.
pub fn resource_field_of(key: &str) -> (r: Option<ResourceField>)
    ensures
        r == resource_field_named(key@),
{
    if same_text(key, "name") {
        Some(ResourceField::Name)
    } else if same_text(key, "initials") {
        Some(ResourceField::Initials)
    } else if same_text(key, "group") {
        Some(ResourceField::Group)
    } else if same_text(key, "max") {
        Some(ResourceField::MaxUnits)
    } else if same_text(key, "rate") {
        Some(ResourceField::Rate)
    } else if same_text(key, "kind") {
        Some(ResourceField::Kind)
    } else {
        None
    }
}

/// What the resource sheet heads a column with.
pub fn resource_field_label(field: ResourceField) -> (r: &'static str)
    ensures
        r@ == resource_field_text(field),
{
    match field {
        ResourceField::Name => "Name",
        ResourceField::Initials => "Initials",
        ResourceField::Group => "Group",
        ResourceField::MaxUnits => "Max Units",
        ResourceField::Rate => "Rate",
        ResourceField::Kind => "Type",
    }
}

/// Something the View ribbon turns on or off.
#[derive(Debug, Clone, Copy, PartialEq, Eq, Structural)]
pub enum ViewOption {
    CriticalPath,
    Timeline,
    OutlineNumber,
    Slack,
    Baseline,
    Links,
    BarText,
    RoundBars,
}

pub open spec fn view_option_text(option: ViewOption) -> Seq<char> {
    match option {
        ViewOption::CriticalPath => "the critical path"@,
        ViewOption::Timeline => "the timeline"@,
        ViewOption::OutlineNumber => "outline numbers"@,
        ViewOption::Slack => "slack"@,
        ViewOption::Baseline => "the baseline"@,
        ViewOption::Links => "link lines"@,
        ViewOption::BarText => "bar text"@,
        ViewOption::RoundBars => "rounded bars"@,
    }
}

/// How a sentence in the log names a view option.
pub fn view_option_label(option: ViewOption) -> (r: &'static str)
    ensures
        r@ == view_option_text(option),
{
    match option {
        ViewOption::CriticalPath => "the critical path",
        ViewOption::Timeline => "the timeline",
        ViewOption::OutlineNumber => "outline numbers",
        ViewOption::Slack => "slack",
        ViewOption::Baseline => "the baseline",
        ViewOption::Links => "link lines",
        ViewOption::BarText => "bar text",
        ViewOption::RoundBars => "rounded bars",
    }
}

/// One command held back for the next entry, with the sentence it was
/// described by.
pub struct Held {
    /// The command's name in a script.
    pub name: String,
    /// Whether it only moves the selection about.
    pub selecting: bool,
    /// For a command that sets a field, that field's label.
    pub field: Option<String>,
    /// The sentence describing it.
    pub summary: String,
}

/// The commands of a run that change something, in order.
pub open spec fn edits(held: Seq<Held>) -> Seq<Held>
    decreases held.len(),
{
    if held.len() == 0 {
        Seq::empty()
    } else {
        let rest = edits(held.drop_last());
        if held.last().selecting {
            rest
        } else {
            rest.push(held.last())
        }
    }
}

/// Whether every command of a run is the same command as its last.
pub open spec fn all_alike(e: Seq<Held>) -> bool {
    forall|k: int| 0 <= k < e.len() ==> #[trigger] e[k].name@ == e.last().name@
}

/// The one sentence a run of commands written as a single entry gets.
pub open spec fn run_text(held: Seq<Held>) -> Seq<char> {
    let e = edits(held);
    if e.len() == 0 {
        if held.len() == 0 {
            Seq::empty()
        } else {
            held.last().summary@
        }
    } else if e.len() == 1 {
        e[0].summary@
    } else if all_alike(e) && e.last().field is Some {
        "Set "@ + e.last().field.unwrap()@ + " on "@ + rows_text(e.len())
    } else {
        decimal(e.len()) + " changes in one step"@
    }
}

/// One sentence for a run of commands written as a single entry.
///
/// Nothing but selecting says what the selecting was. One edit is described
/// as itself. The same field set over a run of rows is one thing the planner
/// did, named once with a count; anything else is counted.
pub fn describe_run(held: &Vec<Held>) -> (r: String)
    ensures
        r@ == run_text(held@),
{
    let mut picked: Vec<usize> = Vec::new();
    let mut i: usize = 0;
    while i < held.len()
        invariant
            i <= held.len(),
            edits(held@.take(i as int)) =~= picked@.map_values(|k: usize| held@[k as int]),
            forall|j: int| 0 <= j < picked.len() ==> picked@[j] < held.len(),
            picked.len() <= i,
        decreases held.len() - i,
    {
        proof {
            assert(held@.take(i + 1).drop_last() =~= held@.take(i as int));
            assert(held@.take(i + 1).last() == held@[i as int]);
        }
        if !held[i].selecting {
            picked.push(i);
        }
        i = i + 1;
    }
    proof {
        assert(held@.take(held.len() as int) =~= held@);
    }
    let ghost e = edits(held@);
    if picked.len() == 0 {
        if held.len() == 0 {
            return String::new();
        }
        return held[held.len() - 1].summary.clone();
    }
    if picked.len() == 1 {
        return held[picked[0]].summary.clone();
    }
    let last = picked[picked.len() - 1];
    let mut alike = true;
    let mut k: usize = 0;
    while k < picked.len()
        invariant
            k <= picked.len(),
            e =~= picked@.map_values(|p: usize| held@[p as int]),
            forall|j: int| 0 <= j < picked.len() ==> picked@[j] < held.len(),
            last == picked@[picked.len() - 1],
            last < held.len(),
            alike == (forall|j: int| 0 <= j < k ==> #[trigger] e[j].name@ == e.last().name@),
        decreases picked.len() - k,
    {
        let same = same_text(held[picked[k]].name.as_str(), held[last].name.as_str());
        proof {
            assert(e[k as int] == held@[picked@[k as int] as int]);
            assert(e.last() == held@[last as int]);
            if alike && same {
                assert forall|j: int| 0 <= j < k + 1 implies #[trigger] e[j].name@ == e.last().name@ by {
                    if j == k {
                    }
                }
            }
        }
        alike = alike && same;
        k = k + 1;
    }
    if alike {
        match &held[last].field {
            Some(field) => {
                let mut r = String::from_str("Set ");
                r.append(field.as_str());
                r.append(" on ");
                let rows = rows_phrase(picked.len());
                r.append(rows.as_str());
                return r;
            },
            None => {},
        }
    }
    let mut r = decimal_string(picked.len() as u64);
    r.append(" changes in one step");
    r
}

/// How another copy's work fared when it was brought into this one.
pub struct BroughtIn {
    /// Whether every change it made fitted this copy.
    pub applied_clean: bool,
    /// How many of the changes did not fit.
    pub rejected: usize,
    /// How many of the commands that came in were replayed here.
    pub replayed: usize,
    /// How many came in.
    pub sent: usize,
}

pub open spec fn not_replayed_text(missed: nat, sent: nat) -> Seq<char> {
    decimal(missed) + " of the "@ + decimal(sent)
        + " commands that came in could not be replayed here"@
}

pub open spec fn not_fitting_text(rejected: nat) -> Seq<char> {
    decimal(rejected) + " of the changes they made do not fit this copy of the plan"@
}

/// Why the work brought in is not clean, each reason joined by ", and ".
pub open spec fn brought_in_text(b: BroughtIn) -> Seq<char> {
    let replay = b.replayed < b.sent;
    let fit = !b.applied_clean;
    if replay && fit {
        not_replayed_text((b.sent - b.replayed) as nat, b.sent as nat) + ", and "@
            + not_fitting_text(b.rejected as nat)
    } else if replay {
        not_replayed_text((b.sent - b.replayed) as nat, b.sent as nat)
    } else if fit {
        not_fitting_text(b.rejected as nat)
    } else {
        Seq::empty()
    }
}

impl BroughtIn {
    /// Whether everything took. False means the honest next step is a whole
    /// plan, not carrying on.
    pub fn is_clean(&self) -> (r: bool)
        ensures
            r == (self.applied_clean && self.replayed == self.sent),
    {
        self.applied_clean && self.replayed == self.sent
    }

    /// Why it is not clean, for a dialog that has to say.
    pub fn why(&self) -> (r: String)
        ensures
            r@ == brought_in_text(*self),
    {
        let mut r = String::new();
        if self.replayed < self.sent {
            let mut missed = decimal_string((self.sent - self.replayed) as u64);
            missed.append(" of the ");
            let sent = decimal_string(self.sent as u64);
            missed.append(sent.as_str());
            missed.append(" commands that came in could not be replayed here");
            r = missed;
        }
        if !self.applied_clean {
            if self.replayed < self.sent {
                r.append(", and ");
            }
            let rejected = decimal_string(self.rejected as u64);
            r.append(rejected.as_str());
            r.append(" of the changes they made do not fit this copy of the plan");
        }
        r
    }
}

/// Which machine a session is bound to, in a form worth showing: the
/// platform and the first eight characters of the fingerprint, enough to
/// tell one machine from another and no more.
pub open spec fn device_text(platform: Seq<char>, fingerprint: Seq<char>) -> Seq<char> {
    let short = if fingerprint.len() <= 8 {
        fingerprint
    } else {
        fingerprint.take(8)
    };
    platform + " ("@ + short + ")"@
}

/// Which machine a session is bound to, from its platform and fingerprint.
pub fn describe_device(platform: &str, fingerprint: &str) -> (r: String)
    ensures
        r@ == device_text(platform@, fingerprint@),
{
    let chars = chars_of(fingerprint);
    let end = if chars.len() <= 8 {
        chars.len()
    } else {
        8
    };
    let short = slice_chars(&chars, 0, end);
    let mut r = String::from_str(platform);
    r.append(" (");
    let short = string_of(&short);
    r.append(short.as_str());
    r.append(")");
    proof {
        if chars@.len() <= 8 {
            assert(chars@.subrange(0, chars@.len() as int) =~= chars@);
        }
    }
    r
}

/// The highest local id among the changes the server said it applied,
/// which is what marks work as sent: an answer that came back out of order
/// must not mark work nobody has seen.
pub fn highest_acknowledged(applied: &Vec<(u64, i64)>) -> (r: Option<u64>)
    ensures
        applied.len() == 0 ==> r is None,
        applied.len() > 0 ==> (r matches Some(h) && (exists|i: int|
            0 <= i < applied.len() && #[trigger] applied@[i].0 == h) && (forall|i: int|
            0 <= i < applied.len() ==> #[trigger] applied@[i].0 <= h)),
{
    let mut best: Option<u64> = None;
    let mut i: usize = 0;
    while i < applied.len()
        invariant
            i <= applied.len(),
            i == 0 ==> best is None,
            i > 0 ==> (best matches Some(h) && (exists|k: int|
                0 <= k < i && #[trigger] applied@[k].0 == h) && (forall|k: int|
                0 <= k < i ==> #[trigger] applied@[k].0 <= h)),
        decreases applied.len() - i,
    {
        let local = applied[i].0;
        best = match best {
            Some(h) => if local > h {
                Some(local)
            } else {
                Some(h)
            },
            None => Some(local),
        };
        i = i + 1;
    }
    best
}

pub open spec fn gap_text(head: int, oldest: Option<int>) -> Seq<char> {
    let held = match oldest {
        Some(o) => "the oldest change it still keeps is "@ + signed_decimal(o),
        None => "it no longer keeps any of them"@,
    };
    "The server's log has been trimmed past the point this copy had reached, so there is nothing left to replay onto: "@
        + held + ", and the head is now "@ + signed_decimal(head)
        + ". Replaying what survives would look like a sync that worked and would have lost the rest, so this copy needs a fresh whole plan instead."@
}

/// Why a copy whose place in the server's log has been trimmed away needs a
/// fresh whole plan, for the dialog that offers one.
pub fn gap_explained(head: i64, oldest: Option<i64>) -> (r: String)
    ensures
        r@ == gap_text(
            head as int,
            match oldest {
                Some(o) => Some(o as int),
                None => None,
            },
        ),
{
    let mut r = String::from_str(
        "The server's log has been trimmed past the point this copy had reached, so there is nothing left to replay onto: ",
    );
    match oldest {
        Some(o) => {
            r.append("the oldest change it still keeps is ");
            let o = signed_string(o);
            r.append(o.as_str());
        },
        None => r.append("it no longer keeps any of them"),
    }
    r.append(", and the head is now ");
    let head = signed_string(head);
    r.append(head.as_str());
    r.append(
        ". Replaying what survives would look like a sync that worked and would have lost the rest, so this copy needs a fresh whole plan instead.",
    );
    r
}

/// What is said when the server would not take a change over the live
/// connection: its reason, and that nothing is lost; nothing when it gave
/// no reason.
pub fn refused_message(why: &str) -> (r: Option<String>)
    ensures
        trim(why@).len() == 0 ==> r is None,
        trim(why@).len() > 0 ==> (r matches Some(m) && m@ == "The server would not take a change: "@
            + why@ + ". It is still here and will be offered again."@),
{
    if trim_chars(&chars_of(why)).len() == 0 {
        return None;
    }
    let mut r = String::from_str("The server would not take a change: ");
    r.append(why);
    r.append(". It is still here and will be offered again.");
    Some(r)
}

/// The furthest point of the log seen so far, after seeing `seen`.
pub fn furthest(cursor: Option<i64>, seen: i64) -> (r: i64)
    ensures
        r == (match cursor {
            Some(c) => if c > seen {
                c
            } else {
                seen
            },
            None => seen,
        }),
{
    match cursor {
        Some(c) => if c > seen {
            c
        } else {
            seen
        },
        None => seen,
    }
}

/// A run of changes written as one entry reads as a single sentence that
/// counts its edits, however many selections came between them.
pub proof fn selecting_never_counts_as_an_edit(held: Seq<Held>, h: Held)
    requires
        h.selecting,
    ensures
        edits(held.push(h)) == edits(held),
{
    assert(held.push(h).drop_last() =~= held);
}

} // verus!
