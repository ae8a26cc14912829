use vstd::prelude::*;

verus! {

/// A cast target as the API reports it.
#[derive(Clone, Debug)]
pub struct CastDeviceInfo {
    pub id: String,
    pub name: String,
    pub device_type: String,  // "chromecast" or "airplay"
    pub is_connected: bool,
}

/// How many log entries are kept.
pub const MAX_LOG_ENTRIES: usize = 1000;

/// The log after appending `entry` to `logs`: the last 1000 entries.
pub open spec fn appended_log(logs: Seq<Seq<char>>, entry: Seq<char>) -> Seq<Seq<char>> {
    let all = logs.push(entry);
    if all.len() > MAX_LOG_ENTRIES {
        all.subrange(all.len() - MAX_LOG_ENTRIES, all.len() as int)
    } else {
        all
    }
}

/// Append a log entry, keeping the last 1000 entries.
pub fn append_log(logs: &mut Vec<String>, entry: String)
    ensures
        final(logs)@.map_values(|s: String| s@) == appended_log(old(logs)@.map_values(|s: String| s@), entry@),
{
    let ghost before = logs@.map_values(|s: String| s@);
    logs.push(entry);
    assert(logs@.map_values(|s: String| s@) =~= before.push(entry@));
    // Keep last 1000 log entries
    if logs.len() > MAX_LOG_ENTRIES {
        let drain_count = logs.len() - MAX_LOG_ENTRIES;
        let ghost all = logs@;
        let mut kept: Vec<String> = Vec::new();
        let n = logs.len();
        for i in drain_count..n
            invariant
                all == logs@,
                n == all.len(),
                drain_count == n - MAX_LOG_ENTRIES,
                kept@ == all.subrange(drain_count as int, i as int),
        {
            kept.push(logs[i].clone());
            assert(kept@ =~= all.subrange(drain_count as int, i + 1));
        }
        *logs = kept;
        assert(logs@.map_values(|s: String| s@) =~= appended_log(before, entry@));
    }
}

/// Appending grows a short log by one and keeps a full log at 1000 entries;
/// the newest entry is always the one just appended.
pub proof fn lemma_log_bounded(logs: Seq<Seq<char>>, entry: Seq<char>)
    ensures
        logs.len() < MAX_LOG_ENTRIES ==> appended_log(logs, entry).len() == logs.len() + 1,
        logs.len() >= MAX_LOG_ENTRIES ==> appended_log(logs, entry).len() == MAX_LOG_ENTRIES,
        appended_log(logs, entry).last() == entry,
{
}

} // verus!
