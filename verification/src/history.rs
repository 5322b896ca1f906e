//! The install history that the shell hooks record.
use vstd::prelude::*;

use crate::order::texts;
use crate::paths::{join_path, joined};
use crate::text::{trim_str, trimmed};
use crate::types::InstallEvent;

verus! {

/// The texts of an event: timestamp, source, action, packages.
pub type EventFields = (Seq<char>, Seq<char>, Seq<char>, Seq<Seq<char>>);

impl InstallEvent {
    /// The texts of the event.
    pub open spec fn fields(&self) -> EventFields {
        (self.timestamp@, self.source@, self.action@, texts(self.packages@))
    }
}

/// The records' fields of a sequence of events.
pub open spec fn event_fields(v: Seq<InstallEvent>) -> Seq<EventFields> {
    v.map_values(|e: InstallEvent| e.fields())
}

/// The directory where the program keeps its files, under the home directory.
pub fn history_dir(home: &str) -> (r: String)
    ensures
        r@ == joined(home@, ".wherearethey"@),
{
    join_path(home, ".wherearethey")
}

/// The history file, under the home directory.
pub fn history_file(home: &str) -> (r: String)
    ensures
        r@ == joined(joined(home@, ".wherearethey"@), "history.json"@),
{
    let dir = history_dir(home);
    join_path(dir.as_str(), "history.json")
}

/// The timestamp of a new event from the output of `date "+%Y-%m-%d %H:%M:%S"`:
/// trimmed, or `unknown` when the command failed.
pub open spec fn timestamp_of(date_output: Option<Seq<char>>) -> Seq<char> {
    match date_output {
        Some(d) => trimmed(d),
        None => trimmed("unknown"@),
    }
}

fn copy_strings(v: &[String]) -> (r: Vec<String>)
    ensures
        texts(r@) == texts(v@),
{
    let mut r: Vec<String> = Vec::new();
    let mut i: usize = 0;
    while i < v.len()
        invariant
            i <= v@.len(),
            texts(r@) == texts(v@).take(i as int),
        decreases v@.len() - i,
    {
        let ghost before = r@;
        r.push(v[i].clone());
        assert(texts(r@) =~= texts(before).push(v@[i as int]@));
        assert(texts(v@).take(i + 1) =~= texts(v@).take(i as int).push(v@[i as int]@));
        i = i + 1;
    }
    assert(texts(v@).take(i as int) =~= texts(v@));
    r
}

/// Records an install event at the end of the history; `date_output` is what the `date`
/// command printed.
pub fn log_install(
    history: &mut Vec<InstallEvent>,
    date_output: Option<String>,
    source: &str,
    action: &str,
    packages: &[String],
)
    ensures
        event_fields(final(history)@) == event_fields(old(history)@).push(
            (
                timestamp_of(crate::types::opt_view(date_output)),
                source@,
                action@,
                texts(packages@),
            ),
        ),
{
    let timestamp = match date_output {
        Some(d) => trim_str(d.as_str()),
        None => trim_str("unknown"),
    };
    let event = InstallEvent {
        timestamp,
        source: String::from_str(source),
        action: String::from_str(action),
        packages: copy_strings(packages),
    };
    let ghost before = history@;
    history.push(event);
    assert(event_fields(history@) =~= event_fields(before).push(event.fields()));
}

} // verus!
