//! What is kept between runs in small JSON files: the recent files list and
//! the quick access toolbar, each a JSON list of strings.
//!
//! The files are read and written by the caller. What a text means, and what
//! text a list becomes, is decided here.

use vstd::prelude::*;
use crate::state::{
    default_qat, default_qat_commands, qat_command_key, qat_from_keys, qat_keys, restored_commands,
    string_views, QatCommand, RecentEntry,
};
use crate::version::opt_view;

verus! {

/// What `serde_json::from_str::<Vec<String>>` reads in a text: the strings
/// of a JSON list, or nothing when the text is not a list of strings.
pub uninterp spec fn string_list_read(text: Seq<char>) -> Option<Seq<Seq<char>>>;

/// What `serde_json::to_string_pretty` writes for a list of strings.
pub uninterp spec fn string_list_written(items: Seq<Seq<char>>) -> Option<Seq<char>>;

/// `serde_json::from_str::<Vec<String>>`.
#[verifier::external_body]
fn read_string_list(text: &str) -> (r: Option<Vec<String>>)
    ensures
        match r {
            Some(v) => string_list_read(text@) == Some(string_views(v@)),
            None => string_list_read(text@) is None,
        },
{
    serde_json::from_str::<Vec<String>>(text).ok()
}

/// `serde_json::to_string_pretty` on a list of strings. Its documentation
/// gives two ways to fail, a `Serialize` impl that fails and a map with keys
/// that are not strings, and a list of strings has neither, so it always
/// writes something.
#[verifier::external_body]
fn write_string_list(items: &Vec<String>) -> (r: Option<String>)
    ensures
        opt_view(r) == string_list_written(string_views(items@)),
        r is Some,
{
    serde_json::to_string_pretty(items).ok()
}

/// The toolbar a stored text brings back: the commands its names name, in
/// order, or the default toolbar where it names none or is not a list.
pub open spec fn stored_toolbar(text: Seq<char>) -> Seq<QatCommand> {
    match string_list_read(text) {
        None => default_qat(),
        Some(keys) => if restored_commands(keys).len() == 0 {
            default_qat()
        } else {
            restored_commands(keys)
        },
    }
}

/// The toolbar stored in `text`.
pub fn qat_from_json(text: &str) -> (r: Vec<QatCommand>)
    ensures
        r@ == stored_toolbar(text@),
{
    match read_string_list(text) {
        Some(keys) => qat_from_keys(&keys),
        None => default_qat_commands(),
    }
}

/// The names a toolbar is stored under.
pub open spec fn toolbar_keys(commands: Seq<QatCommand>) -> Seq<Seq<char>> {
    Seq::new(commands.len(), |i: int| qat_command_key(commands[i]))
}

/// The text a toolbar is stored as.
pub fn qat_json(commands: &Vec<QatCommand>) -> (r: Option<String>)
    ensures
        opt_view(r) == string_list_written(toolbar_keys(commands@)),
        r is Some,
{
    let keys = qat_keys(commands);
    let mut owned: Vec<String> = Vec::new();
    let mut i: usize = 0;
    while i < keys.len()
        invariant
            i <= keys.len(),
            keys@.len() == commands@.len(),
            forall|k: int| 0 <= k < keys@.len() ==> (#[trigger] keys@[k])@ == qat_command_key(commands@[k]),
            owned.len() == i,
            string_views(owned@) =~= toolbar_keys(commands@).take(i as int),
        decreases keys.len() - i,
    {
        let ghost before = owned@;
        owned.push(keys[i].to_owned());
        proof {
            assert(keys@[i as int]@ == qat_command_key(commands@[i as int]));
            assert(string_views(owned@) =~= string_views(before).push(keys@[i as int]@));
        }
        i = i + 1;
    }
    proof {
        assert(toolbar_keys(commands@).take(keys.len() as int) =~= toolbar_keys(commands@));
    }
    write_string_list(&owned)
}

/// The paths a stored recent files list names, in order; none where the text
/// is not a list.
pub fn recent_from_json(text: &str) -> (r: Vec<String>)
    ensures
        string_views(r@) == (match string_list_read(text@) {
            Some(paths) => paths,
            None => Seq::empty(),
        }),
{
    match read_string_list(text) {
        Some(paths) => paths,
        None => {
            let none: Vec<String> = Vec::new();
            proof {
                assert(string_views(none@) =~= Seq::<Seq<char>>::empty());
            }
            none
        },
    }
}

pub open spec fn entry_paths(entries: Seq<RecentEntry>) -> Seq<Seq<char>> {
    Seq::new(entries.len(), |i: int| entries[i].path@)
}

/// The text the recent files list is stored as: its paths, in order.
pub fn recent_json(entries: &Vec<RecentEntry>) -> (r: Option<String>)
    ensures
        opt_view(r) == string_list_written(entry_paths(entries@)),
        r is Some,
{
    let mut paths: Vec<String> = Vec::new();
    let mut i: usize = 0;
    while i < entries.len()
        invariant
            i <= entries.len(),
            paths.len() == i,
            string_views(paths@) =~= entry_paths(entries@).take(i as int),
        decreases entries.len() - i,
    {
        let ghost before = paths@;
        paths.push(entries[i].path.clone());
        proof {
            assert(string_views(paths@) =~= string_views(before).push(entries@[i as int].path@));
        }
        i = i + 1;
    }
    proof {
        assert(entry_paths(entries@).take(entries.len() as int) =~= entry_paths(entries@));
    }
    write_string_list(&paths)
}

} // verus!
