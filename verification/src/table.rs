//! Per-device state kept by the device manager, keyed by device: running
//! recordings, persistent input sessions, known screen sizes and connected
//! `idb` companions.

use vstd::prelude::*;
use vstd::string::*;

use crate::devices::PointDimensions;
use crate::error::{is_invalid_input, AppError};
use crate::text::{chars_eq_str, chars_of};

verus! {

/// Entries, later ones taking precedence over earlier ones with the same key.
pub open spec fn entries_map<J>(s: Seq<(Seq<char>, J)>) -> Map<Seq<char>, J>
    decreases s.len(),
{
    if s.len() == 0 {
        Map::empty()
    } else {
        entries_map(s.drop_last()).insert(s.last().0, s.last().1)
    }
}

/// A table from device keys to values, like a `HashMap<String, J>`.
pub struct DeviceTable<J> {
    entries: Vec<(String, J)>,
}

impl<J> DeviceTable<J> {
    /// The keys and values of the entries, in order.
    pub closed spec fn entries_view(&self) -> Seq<(Seq<char>, J)> {
        self.entries@.map_values(|e: (String, J)| (e.0@, e.1))
    }

    /// The table as a map.
    pub closed spec fn as_map(&self) -> Map<Seq<char>, J> {
        entries_map(self.entries_view())
    }

    /// An empty table.
    pub fn new() -> (t: DeviceTable<J>)
        ensures
            t.as_map() == Map::<Seq<char>, J>::empty(),
    {
        let t = DeviceTable { entries: Vec::new() };
        assert(t.entries_view() =~= Seq::<(Seq<char>, J)>::empty());
        t
    }

    /// Whether `key` has a value.
    pub fn contains_key(&self, key: &str) -> (r: bool)
        ensures
            r == self.as_map().contains_key(key@),
    {
        self.find_last(key).is_some()
    }

    /// The index of the last entry under `key`.
    fn find_last(&self, key: &str) -> (r: Option<usize>)
        ensures
            match r {
                Some(i) => i < self.entries@.len() && self.as_map().contains_key(key@)
                    && self.as_map()[key@] == self.entries@[i as int].1,
                None => !self.as_map().contains_key(key@),
            },
    {
        let kv = chars_of(key);
        let mut j = self.entries.len();
        let ghost ev = self.entries_view();
        assert(ev.take(j as int) =~= ev);
        while j > 0
            invariant
                j <= self.entries@.len(),
                ev == self.entries_view(),
                kv@ == key@,
                entries_map(ev).contains_key(key@) == entries_map(ev.take(j as int)).contains_key(
                    key@,
                ),
                entries_map(ev.take(j as int)).contains_key(key@) ==> entries_map(ev)[key@]
                    == entries_map(ev.take(j as int))[key@],
            decreases j,
        {
            let e = &self.entries[j - 1];
            let ek = chars_of(e.0.as_str());
            assert(ev.take(j as int).drop_last() =~= ev.take(j - 1));
            assert(ev.take(j as int).last() == (e.0@, e.1));
            if chars_eq_str(ek.as_slice(), key) {
                return Some(j - 1);
            }
            j = j - 1;
        }
        assert(ev.take(0) =~= Seq::<(Seq<char>, J)>::empty());
        None
    }

    /// The value under `key`.
    pub fn get(&self, key: &str) -> (r: Option<&J>)
        ensures
            match r {
                Some(v) => self.as_map().contains_key(key@) && self.as_map()[key@] == *v,
                None => !self.as_map().contains_key(key@),
            },
    {
        match self.find_last(key) {
            Some(i) => Some(&self.entries[i].1),
            None => None,
        }
    }

    /// Removes the value under `key` and returns it.
    pub fn remove(&mut self, key: &str) -> (r: Option<J>)
        ensures
            final(self).as_map() == old(self).as_map().remove(key@),
            match r {
                Some(v) => old(self).as_map().contains_key(key@) && old(self).as_map()[key@] == v,
                None => !old(self).as_map().contains_key(key@),
            },
    {
        let kv = chars_of(key);
        let ghost ev = self.entries_view();
        let mut rest: Vec<(String, J)> = Vec::new();
        std::mem::swap(&mut rest, &mut self.entries);
        let ghost all = rest@;
        let n = rest.len();
        let mut kept: Vec<(String, J)> = Vec::new();
        let mut found: Option<J> = None;
        let mut i: usize = 0;
        assert(ev =~= all.map_values(|e: (String, J)| (e.0@, e.1)));
        while rest.len() > 0
            invariant
                kv@ == key@,
                all.len() == n,
                ev == all.map_values(|e: (String, J)| (e.0@, e.1)),
                i + rest@.len() == all.len(),
                rest@ == all.skip(i as int),
                entries_map(kept@.map_values(|e: (String, J)| (e.0@, e.1))) == entries_map(
                    ev.take(i as int),
                ).remove(key@),
                match found {
                    Some(v) => entries_map(ev.take(i as int)).contains_key(key@) && entries_map(
                        ev.take(i as int),
                    )[key@] == v,
                    None => !entries_map(ev.take(i as int)).contains_key(key@),
                },
            decreases rest@.len(),
        {
            let e = rest.remove(0);
            let ghost kept_before = kept@;
            proof {
                assert(all.skip(i as int)[0] == e);
                assert(rest@ =~= all.skip(i + 1));
                assert(ev.take(i + 1).drop_last() =~= ev.take(i as int));
                assert(ev.take(i + 1).last() == (e.0@, e.1));
            }
            let ek = chars_of(e.0.as_str());
            if chars_eq_str(ek.as_slice(), key) {
                proof {
                    assert(entries_map(ev.take(i + 1)).remove(key@) =~= entries_map(
                        ev.take(i as int),
                    ).remove(key@));
                }
                found = Some(e.1);
            } else {
                kept.push(e);
                proof {
                    let kv2 = kept@.map_values(|x: (String, J)| (x.0@, x.1));
                    assert(kv2.drop_last() =~= kept_before.map_values(|x: (String, J)| (x.0@, x.1)));
                    assert(entries_map(kv2) =~= entries_map(ev.take(i + 1)).remove(key@));
                }
            }
            i = i + 1;
        }
        assert(ev.take(i as int) =~= ev);
        self.entries = kept;
        found
    }

    /// Sets the value under `key`, replacing any earlier one.
    pub fn insert(&mut self, key: String, value: J)
        ensures
            final(self).as_map() == old(self).as_map().insert(key@, value),
    {
        let _ = self.remove(key.as_str());
        let ghost before = self.entries_view();
        let ghost k = key@;
        assert(entries_map(before) == old(self).as_map().remove(k));
        self.entries.push((key, value));
        assert(self.entries_view() =~= before.push((k, value)));
        assert(before.push((k, value)).drop_last() =~= before);
        assert(self.as_map() == entries_map(before).insert(k, value));
        assert(old(self).as_map().remove(k).insert(k, value) =~= old(self).as_map().insert(k, value));
    }
}

/// Puts the persistent shell of the device `serial` back on the table after
/// a line was written to it, or drops it when the write failed, so that the
/// next line starts a new shell.
pub fn keep_shell_after_write<J>(sessions: &mut DeviceTable<J>, serial: String, session: J, written: bool)
    ensures
        written ==> final(sessions).as_map() == old(sessions).as_map().insert(serial@, session),
        !written ==> final(sessions).as_map() == old(sessions).as_map().remove(serial@),
{
    if written {
        sessions.insert(serial, session);
    } else {
        let _ = sessions.remove(serial.as_str());
    }
}

/// Remembers the screen size of the simulator `udid` that `idb describe`
/// gave (390 by 844 points when it could not be read), and returns it; later
/// lookups find it without asking `idb` again.
pub fn remember_points(
    cache: &mut DeviceTable<PointDimensions>,
    udid: String,
    described: Option<PointDimensions>,
) -> (r: PointDimensions)
    ensures
        r == match described {
            Some(p) => p,
            None => PointDimensions { width: 390, height: 844 },
        },
        final(cache).as_map() == old(cache).as_map().insert(udid@, r),
{
    let points = crate::commands::point_dimensions_or_default(described);
    cache.insert(udid, points);
    points
}

/// What stopping the recording of `key` gives on a table of running
/// recordings: the table without it and the recording, or the table
/// unchanged and the refusal message.
pub open spec fn stop_outcome<J>(m: Map<Seq<char>, J>, key: Seq<char>) -> (Map<Seq<char>, J>, Result<J, Seq<char>>) {
    if m.contains_key(key) {
        (m.remove(key), Ok(m[key]))
    } else {
        (m, Err("no recording is running for "@ + key))
    }
}

/// The refusal to start recording `key` on a table of running recordings,
/// if there is one.
pub open spec fn start_refusal<J>(m: Map<Seq<char>, J>, key: Seq<char>) -> Option<Seq<char>> {
    if m.contains_key(key) {
        Some("recording is already running for "@ + key)
    } else {
        None
    }
}

/// Takes the recording of the device `key` off the table, or refuses when
/// none is running.
pub fn take_recording<J>(table: &mut DeviceTable<J>, key: &str) -> (r: Result<J, AppError>)
    ensures
        final(table).as_map() == stop_outcome(old(table).as_map(), key@).0,
        match stop_outcome(old(table).as_map(), key@).1 {
            Ok(job) => r == Ok::<J, AppError>(job),
            Err(msg) => is_invalid_input(r, msg),
        },
{
    proof {
        assert(old(table).as_map().remove(key@) =~= stop_outcome(old(table).as_map(), key@).0);
    }
    match table.remove(key) {
        Some(job) => Ok(job),
        None => Err(crate::commands::no_recording_running(key)),
    }
}

/// Refuses to start a recording of the device `key` while one is running.
pub fn ensure_not_recording<J>(table: &DeviceTable<J>, key: &str) -> (r: Result<(), AppError>)
    ensures
        match start_refusal(table.as_map(), key@) {
            None => r is Ok,
            Some(msg) => is_invalid_input(r, msg),
        },
{
    if table.contains_key(key) {
        Err(crate::commands::recording_already_running(key))
    } else {
        Ok(())
    }
}

/// The recording protocol, over the table of running recordings: a device
/// with no recording may start one; once it has, a second start is refused
/// and leaves the recording running; stopping gives back the recording that
/// started and leaves the table as it was before the start; and a second
/// stop is refused.
pub proof fn law_recording_start_stop<J>(m: Map<Seq<char>, J>, key: Seq<char>, job: J)
    requires
        !m.contains_key(key),
    ensures
        start_refusal(m, key) is None,
        start_refusal(m.insert(key, job), key) == Some("recording is already running for "@ + key),
        stop_outcome(m.insert(key, job), key) == (m, Ok::<J, Seq<char>>(job)),
        stop_outcome(stop_outcome(m.insert(key, job), key).0, key).1 == Err::<J, Seq<char>>(
            "no recording is running for "@ + key,
        ),
{
    assert(m.insert(key, job).remove(key) =~= m);
}

/// What a table gives back of a write: after setting `key` to `value`,
/// reading `key` gives `value`, taking it off leaves the table as it would
/// be without `key`, and the other keys are untouched.
pub proof fn law_table_read_after_write<J>(m: Map<Seq<char>, J>, key: Seq<char>, value: J, other: Seq<char>)
    requires
        other != key,
    ensures
        m.insert(key, value).contains_key(key),
        m.insert(key, value)[key] == value,
        m.insert(key, value).remove(key) == m.remove(key),
        m.insert(key, value).contains_key(other) == m.contains_key(other),
        m.contains_key(other) ==> m.insert(key, value)[other] == m[other],
{
    assert(m.insert(key, value).remove(key) =~= m.remove(key));
}

} // verus!
