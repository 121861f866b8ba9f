//! Decisions of the passes that rename files and folders in place, and the
//! names tried when a wanted name is taken.

use crate::metadata::AudioMetadata;
use crate::text::{chars_of, decimal_of, lowercase, lowercase_of, push_all, push_decimal,
    same_chars, string_of};
use crate::utils::{normalize_for_comparison, split_name, split_name_of};
use vstd::prelude::*;

verus! {

/// Options of the pass that lower-cases names.
#[derive(Debug, Clone)]
pub struct LowercaseOptions {
    pub input_dir: String,
    pub dry_run: bool,
    pub verbose: bool,
}

/// What happens to one name.
#[derive(Debug, Clone, PartialEq, Eq)]
pub enum RenameDecision {
    /// The name is already as wanted.
    Keep,
    /// Another entry has the wanted name: the file is skipped.
    Conflict,
    /// The entry is renamed to this name.
    Rename { to: String },
}

/// A file that is moved into a folder where its name may be taken.
#[derive(Debug, Clone, Copy, PartialEq, Eq, Structural)]
pub enum Arrival {
    /// Nothing else has the name.
    Free,
    /// The name is taken by something that is not the same track.
    Taken,
    /// The name is taken by the same track; both scores are known.
    SameSong { incoming: u32, existing: u32 },
}

/// What happens to a file that is moved into a folder.
#[derive(Debug, Clone, Copy, PartialEq, Eq, Structural)]
pub enum ArrivalAction {
    /// It is moved under its name.
    Move,
    /// It replaces the existing file, which is of lower quality.
    ReplaceExisting,
    /// It is removed: the existing file is at least as good.
    RemoveIncoming,
    /// It is moved under a numbered name, so that both files stay.
    MoveNumbered,
}

/// One step of the search for a free numbered name.
#[derive(Debug, Clone, Copy, PartialEq, Eq, Structural)]
pub enum NameSearch {
    /// The name with this number is free and is taken.
    Use { number: u32 },
    /// The name is taken: the next number is tried.
    Try { number: u32 },
    /// Every number up to the limit is taken.
    GiveUp,
}

/// The step after trying the name with number `tried`: a free name is
/// used; a taken one leads to the next number, as long as that stays below
/// `limit`.
pub open spec fn name_search_of(tried: u32, taken: bool, limit: u32) -> NameSearch {
    if !taken {
        NameSearch::Use { number: tried }
    } else if tried + 1 < limit {
        NameSearch::Try { number: (tried + 1) as u32 }
    } else {
        NameSearch::GiveUp
    }
}

/// The decision for a name, given the wanted name and whether another
/// entry has it.
pub open spec fn rename_decision_of(name: Seq<char>, wanted: Seq<char>, taken: bool)
    -> Option<Option<Seq<char>>> {
    if name == wanted {
        None
    } else if taken {
        Some(None)
    } else {
        Some(Some(wanted))
    }
}

/// The action for a file that arrives in a folder.
pub open spec fn arrival_action_of(arrival: Arrival) -> ArrivalAction {
    match arrival {
        Arrival::Free => ArrivalAction::Move,
        Arrival::Taken => ArrivalAction::MoveNumbered,
        Arrival::SameSong { incoming, existing } => if incoming > existing {
            ArrivalAction::ReplaceExisting
        } else {
            ArrivalAction::RemoveIncoming
        },
    }
}

/// The `n`-th numbered name made of a stem and an extension without its
/// period: `stem (n).ext`, or `stem (n)` without extension.
pub open spec fn suffixed_name_of(stem: Seq<char>, ext: Seq<char>, n: nat) -> Seq<char> {
    if ext.len() == 0 {
        stem + " ("@ + decimal_of(n) + ")"@
    } else {
        stem + " ("@ + decimal_of(n) + ")."@ + ext
    }
}

/// A file name with a stamp before its extension: `base_stamp.ext`.
pub open spec fn stamped_name_of(name: Seq<char>, stamp: Seq<char>) -> Seq<char> {
    let (base, ext) = split_name_of(name);
    base + "_"@ + stamp + ext
}

/// Decides how the search for a free numbered name goes on after the name
/// with number `tried` was found taken or free. Numbers stay below `limit`.
pub fn name_search_step(tried: u32, taken: bool, limit: u32) -> (r: NameSearch)
    ensures
        r == name_search_of(tried, taken, limit),
{
    if !taken {
        NameSearch::Use { number: tried }
    } else if tried < limit && limit - tried > 1 {
        NameSearch::Try { number: tried + 1 }
    } else {
        NameSearch::GiveUp
    }
}

/// Decides what happens to an entry named `name` that should be named
/// `wanted`; `taken` says whether another entry has that name.
pub fn decide_rename(name: &str, wanted: String, taken: bool) -> (r: RenameDecision)
    ensures
        match r {
            RenameDecision::Keep => rename_decision_of(name@, wanted@, taken) is None,
            RenameDecision::Conflict => rename_decision_of(name@, wanted@, taken) == Some(
                None::<Seq<char>>,
            ),
            RenameDecision::Rename { to } => rename_decision_of(name@, wanted@, taken) == Some(
                Some(to@),
            ),
        },
{
    if same_chars(&chars_of(name), &chars_of(wanted.as_str())) {
        RenameDecision::Keep
    } else if taken {
        RenameDecision::Conflict
    } else {
        RenameDecision::Rename { to: wanted }
    }
}

/// Decides what happens to an entry whose name is to be lower-cased.
pub fn decide_lowercase(name: &str, taken: bool) -> (r: RenameDecision)
    ensures
        match r {
            RenameDecision::Keep => rename_decision_of(name@, lowercase_of(name@), taken) is None,
            RenameDecision::Conflict => rename_decision_of(name@, lowercase_of(name@), taken)
                == Some(None::<Seq<char>>),
            RenameDecision::Rename { to } => rename_decision_of(name@, lowercase_of(name@), taken)
                == Some(Some(to@)),
        },
{
    decide_rename(name, lowercase(name), taken)
}

/// Decides what happens to a file that arrives in a folder.
pub fn decide_arrival(arrival: Arrival) -> (r: ArrivalAction)
    ensures
        r == arrival_action_of(arrival),
{
    match arrival {
        Arrival::Free => ArrivalAction::Move,
        Arrival::Taken => ArrivalAction::MoveNumbered,
        Arrival::SameSong { incoming, existing } => {
            if incoming > existing {
                ArrivalAction::ReplaceExisting
            } else {
                ArrivalAction::RemoveIncoming
            }
        },
    }
}

/// Whether two records describe the same track: their titles, artists and
/// albums agree in comparison form.
pub fn is_same_song(first: &AudioMetadata, second: &AudioMetadata) -> (r: bool)
    ensures
        r == (crate::utils::comparison_form_of(first.title_name())
            == crate::utils::comparison_form_of(second.title_name())
            && crate::utils::comparison_form_of(first.organizing_artist(false))
            == crate::utils::comparison_form_of(second.organizing_artist(false))
            && crate::utils::comparison_form_of(first.album_name())
            == crate::utils::comparison_form_of(second.album_name())),
{
    let title1 = normalize_for_comparison(first.get_title().as_str());
    let title2 = normalize_for_comparison(second.get_title().as_str());
    let artist1 = normalize_for_comparison(first.get_organizing_artist(false).as_str());
    let artist2 = normalize_for_comparison(second.get_organizing_artist(false).as_str());
    let album1 = normalize_for_comparison(first.get_album().as_str());
    let album2 = normalize_for_comparison(second.get_album().as_str());
    title1 == title2 && artist1 == artist2 && album1 == album2
}

/// The `counter`-th numbered name for a stem and an extension.
pub fn find_unique_filename(stem: &str, extension: &str, counter: u32) -> (r: String)
    ensures
        r@ == suffixed_name_of(stem@, extension@, counter as nat),
{
    let ext = chars_of(extension);
    let mut out: Vec<char> = Vec::new();
    push_all(&mut out, &chars_of(stem));
    push_all(&mut out, &chars_of(" ("));
    push_decimal(&mut out, counter as u64);
    if ext.len() == 0 {
        push_all(&mut out, &chars_of(")"));
    } else {
        push_all(&mut out, &chars_of(")."));
        push_all(&mut out, &ext);
    }
    assert(out@ =~= suffixed_name_of(stem@, extension@, counter as nat));
    string_of(&out)
}

/// The name tried last for a file name that is taken: the stamp goes before
/// the extension.
pub fn stamped_name(name: &str, stamp: &str) -> (r: String)
    ensures
        r@ == stamped_name_of(name@, stamp@),
{
    let (base, ext) = split_name(&chars_of(name));
    let mut out: Vec<char> = Vec::new();
    push_all(&mut out, &base);
    push_all(&mut out, &chars_of("_"));
    push_all(&mut out, &chars_of(stamp));
    push_all(&mut out, &ext);
    assert(out@ =~= base@ + "_"@ + stamp@ + ext@);
    string_of(&out)
}

} // verus!
